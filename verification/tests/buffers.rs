use ste::buf::{Buf, BufInfo, BufMut, ReadBuf, ResizableBuf, Sample, Sequential, Translate};
use ste::chunk::Chunk;
use ste::iter::{Iter, IterMut};
use ste::uniform_buf::UniformBuf;
use ste::write::{Read, Write};

#[test]
fn sequential_starts_silent() {
    let buf: Sequential<i32> = Sequential::new(2, 3);
    assert_eq!(buf.buf_info_channels(), 2);
    assert_eq!(buf.buf_info_frames(), 3);
    for c in 0..2 {
        for f in 0..3 {
            assert_eq!(buf.sample_at(c, f), 0);
        }
    }
}

#[test]
fn set_sample_changes_one_sample() {
    let mut buf: Sequential<i32> = Sequential::new(2, 2);
    buf.set_sample(1, 0, 9);
    assert_eq!(buf.sample_at(1, 0), 9);
    assert_eq!(buf.sample_at(0, 0), 0);
    assert_eq!(buf.sample_at(1, 1), 0);
}

#[test]
fn sequential_resize_keeps_channels() {
    let mut buf: Sequential<i16> = Sequential::new(3, 2);
    buf.set_sample(1, 0, 42);
    buf.resize(5);
    assert_eq!(buf.buf_info_channels(), 3);
    assert_eq!(buf.buf_info_frames(), 5);
    assert_eq!(buf.sample_at(1, 0), 42);
    assert_eq!(buf.sample_at(1, 4), 0);
    buf.resize_topology(4, 1);
    assert_eq!(buf.buf_info_channels(), 4);
    assert_eq!(buf.buf_info_frames(), 1);
    assert_eq!(buf.sample_at(1, 0), 42);
    assert_eq!(buf.sample_at(3, 0), 0);
}

#[test]
fn write_tracks_available_frames() {
    let buf: Sequential<i32> = Sequential::new(1, 4);
    let writer = Write::new(buf);
    assert!(writer.has_remaining_mut());
    assert_eq!(writer.remaining_mut(), 4);
    assert_eq!(writer.as_ref().buf_info_frames(), 4);
}

#[test]
fn copy_fills_the_tail_and_consumes() {
    let dst: Sequential<i32> = Sequential::new(2, 4);
    let mut writer = Write::new(dst);

    let mut src: Sequential<i32> = Sequential::new(2, 2);
    src.set_sample(0, 0, 1);
    src.set_sample(0, 1, 2);
    src.set_sample(1, 0, 3);
    src.set_sample(1, 1, 4);
    writer.copy(Read::new(src));
    assert_eq!(writer.remaining_mut(), 2);

    let mut src: Sequential<i32> = Sequential::new(2, 2);
    src.set_sample(0, 0, 5);
    src.set_sample(0, 1, 6);
    src.set_sample(1, 0, 7);
    src.set_sample(1, 1, 8);
    writer.copy(Read::new(src));
    assert_eq!(writer.remaining_mut(), 0);
    assert!(!writer.has_remaining_mut());

    let filled = writer.as_ref();
    assert_eq!(filled.sample_at(0, 0), 1);
    assert_eq!(filled.sample_at(0, 1), 2);
    assert_eq!(filled.sample_at(0, 2), 5);
    assert_eq!(filled.sample_at(0, 3), 6);
    assert_eq!(filled.sample_at(1, 0), 3);
    assert_eq!(filled.sample_at(1, 1), 4);
    assert_eq!(filled.sample_at(1, 2), 7);
    assert_eq!(filled.sample_at(1, 3), 8);
}

#[test]
fn copy_leaves_extra_channels_alone() {
    let mut dst: Sequential<i32> = Sequential::new(2, 2);
    dst.set_sample(1, 0, 7);
    dst.set_sample(1, 1, 8);
    let mut writer = Write::new(dst);
    let mut src: Sequential<i32> = Sequential::new(1, 2);
    src.set_sample(0, 0, 5);
    src.set_sample(0, 1, 6);
    writer.copy(Read::new(src));
    let filled = writer.as_ref();
    assert_eq!(filled.sample_at(0, 0), 5);
    assert_eq!(filled.sample_at(0, 1), 6);
    assert_eq!(filled.sample_at(1, 0), 7);
    assert_eq!(filled.sample_at(1, 1), 8);
}

#[test]
fn translate_scales_samples_on_the_way() {
    let dst: Sequential<i32> = Sequential::new(1, 2);
    let mut writer = Write::new(dst);
    let mut src: Sequential<i16> = Sequential::new(1, 2);
    src.set_sample(0, 0, 2);
    src.set_sample(0, 1, -3);
    writer.translate(Read::new(src));
    assert_eq!(writer.remaining_mut(), 0);
    let filled = writer.as_ref();
    assert_eq!(filled.sample_at(0, 0), 2 * 65536);
    assert_eq!(filled.sample_at(0, 1), -3 * 65536);
}

#[test]
fn translate_identity_keeps_samples() {
    assert_eq!(<i16 as Translate<i16>>::translate(-5), -5);
    assert_eq!(<i32 as Translate<i16>>::translate(1), 65536);
    assert_eq!(i16::zero(), 0);
    assert_eq!(i32::zero(), 0);
}

#[test]
fn reader_counts_down() {
    let src: Sequential<i32> = Sequential::new(1, 3);
    let mut reader = Read::new(src);
    assert_eq!(reader.remaining(), 3);
    assert!(reader.has_remaining());
    reader.advance(2);
    assert_eq!(reader.remaining(), 1);
    reader.advance(5);
    assert_eq!(reader.remaining(), 0);
    assert!(!reader.has_remaining());
}

#[test]
fn chunk_spans_the_frames_past_its_block() {
    let parent: Sequential<i16> = Sequential::new(2, 10);
    let chunk = Chunk::new(parent, 2, 3);
    assert_eq!(chunk.buf_info_frames(), 4);
    assert_eq!(chunk.buf_info_channels(), 2);
}

#[test]
fn chunk_past_the_end_is_empty() {
    let parent: Sequential<i16> = Sequential::new(1, 5);
    let chunk = Chunk::new(parent, 3, 2);
    assert_eq!(chunk.buf_info_frames(), 0);
    let parent: Sequential<i16> = Sequential::new(1, 5);
    let chunk = Chunk::new(parent, usize::MAX, usize::MAX);
    assert_eq!(chunk.buf_info_frames(), 0);
}

#[test]
fn chunk_resize_asks_for_whole_blocks() {
    let parent: Sequential<i16> = Sequential::new(2, 3);
    let mut chunk = Chunk::new(parent, 1, 3);
    chunk.resize(2);
    assert_eq!(chunk.buf_info_channels(), 2);
    assert_eq!(chunk.buf_info_frames(), 6);
    chunk.resize_topology(3, 1);
    assert_eq!(chunk.buf_info_channels(), 3);
    assert_eq!(chunk.buf_info_frames(), 3);
}

#[test]
fn iter_walks_complete_channels() {
    let data: Vec<i16> = vec![1, 2, 3, 4, 5, 6, 7];
    let mut iter = Iter::new(data, 2);
    assert_eq!(iter.len(), 3);
    assert_eq!(iter.next().unwrap(), vec![1, 2]);
    assert_eq!(iter.next_back().unwrap(), vec![5, 6]);
    assert_eq!(iter.len(), 1);
    assert_eq!(iter.next().unwrap(), vec![3, 4]);
    assert!(iter.next().is_none());
    assert!(iter.next_back().is_none());
}

#[test]
fn iter_nth_back_consumes_the_tail() {
    let data: Vec<i16> = vec![1, 2, 3, 4, 5, 6, 7, 8];
    let mut iter = Iter::new(data, 2);
    assert_eq!(iter.nth_back(1).unwrap(), vec![5, 6]);
    assert_eq!(iter.len(), 2);
    assert_eq!(iter.nth_back(2).is_none(), true);
    assert_eq!(iter.len(), 0);
}

#[test]
fn iter_mut_walks_complete_channels() {
    let data: Vec<i32> = vec![9, 8, 7, 6, 5];
    let mut iter = IterMut::new(data, 2);
    assert_eq!(iter.len(), 2);
    assert_eq!(iter.next_back().unwrap(), vec![7, 6]);
    assert_eq!(iter.next().unwrap(), vec![9, 8]);
    assert!(iter.next_back().is_none());
    let data: Vec<i32> = vec![1, 2, 3, 4];
    let mut iter = IterMut::new(data, 2);
    assert_eq!(iter.nth_back(0).unwrap(), vec![3, 4]);
    assert_eq!(iter.len(), 1);
}

#[test]
fn get_frame_reads_across_channels() {
    let mut buf: Sequential<i32> = Sequential::new(2, 4);
    for c in 0..2 {
        for f in 0..4 {
            buf.set_sample(c, f, (1 + c as i32) * 10 + f as i32);
        }
    }
    assert_eq!(buf.get_frame(0).unwrap(), vec![10, 20]);
    assert_eq!(buf.get_frame(2).unwrap(), vec![12, 22]);
    assert!(buf.get_frame(4).is_none());
    let frames = buf.iter_frames();
    assert_eq!(frames.len(), 4);
    assert_eq!(frames[1], vec![11, 21]);
    assert_eq!(frames[3], vec![13, 23]);
}
