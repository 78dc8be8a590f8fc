use digit_recognition::data::{Image, ImageSize};
use digit_recognition::io_ext::{
    stop_on_io_error, ByteReader, DataIter, IntoDataIter, Pulled, ReadData, ReadError,
    ReadFromBytes,
};
use digit_recognition::training_data::Label;

#[test]
fn big_endian_integer_has_its_first_byte_most_significant() {
    let mut reader = ByteReader::new(vec![0x12, 0x34, 0x56, 0x78, 0x9a]);
    assert_eq!(reader.read_be_u32(), Ok(0x1234_5678));
    assert_eq!(reader.remaining(), 1);
}

#[test]
fn big_endian_integers_are_read_one_after_the_other() {
    let mut reader = ByteReader::new(vec![0, 0, 8, 3, 0, 0, 0, 2, 0xff, 0xff, 0xff, 0xff]);
    assert_eq!(reader.read_be_u32(), Ok(0x0000_0803));
    assert_eq!(reader.read_be_u32(), Ok(2));
    assert_eq!(reader.read_be_u32(), Ok(u32::MAX));
    assert_eq!(reader.remaining(), 0);
    assert_eq!(reader.read_be_u32(), Err(ReadError::UnexpectedEof));
}

#[test]
fn short_integer_fails_and_uses_up_the_source() {
    let mut reader = ByteReader::new(vec![1, 2, 3]);
    assert_eq!(reader.read_be_u32(), Err(ReadError::UnexpectedEof));
    assert_eq!(reader.remaining(), 0);
    assert_eq!(reader.read_u8(), Err(ReadError::UnexpectedEof));
}

#[test]
fn single_bytes_are_read_in_order() {
    let mut reader = ByteReader::new(vec![7, 250]);
    assert_eq!(reader.read_u8(), Ok(7));
    assert_eq!(reader.read_u8(), Ok(250));
    assert_eq!(reader.read_u8(), Err(ReadError::UnexpectedEof));
    assert_eq!(reader.remaining(), 0);
}

#[test]
fn blocks_are_read_exactly() {
    let mut reader = ByteReader::new(vec![1, 2, 3, 4, 5]);
    assert_eq!(reader.remaining(), 5);
    assert_eq!(reader.read_exact(2), Ok(vec![1, 2]));
    assert_eq!(reader.remaining(), 3);
    assert_eq!(reader.read_exact(0), Ok(vec![]));
    assert_eq!(reader.remaining(), 3);
    assert_eq!(reader.read_exact(3), Ok(vec![3, 4, 5]));
    assert_eq!(reader.remaining(), 0);
    assert_eq!(reader.read_exact(0), Ok(vec![]));
    assert_eq!(reader.read_exact(1), Err(ReadError::UnexpectedEof));
}

#[test]
fn block_larger_than_the_rest_fails_and_uses_up_the_source() {
    let mut reader = ByteReader::new(vec![1, 2, 3, 4, 5]);
    assert_eq!(reader.read_exact(6), Err(ReadError::UnexpectedEof));
    assert_eq!(reader.remaining(), 0);
    let mut reader = ByteReader::new(vec![1, 2, 3, 4, 5]);
    assert_eq!(reader.read_exact(usize::MAX), Err(ReadError::UnexpectedEof));
    assert_eq!(reader.remaining(), 0);
}

#[test]
fn skipping_to_the_end_leaves_nothing() {
    let mut reader = ByteReader::new(vec![1, 2, 3]);
    reader.skip_to_end();
    assert_eq!(reader.remaining(), 0);
}

#[test]
fn image_size_is_two_big_endian_integers() {
    let mut reader = ByteReader::new(vec![0, 0, 0, 28, 0, 0, 1, 0, 9]);
    let size: ImageSize = reader.read_data(&()).unwrap();
    assert_eq!(size, ImageSize { width: 28, height: 256 });
    assert_eq!(reader.remaining(), 1);
}

#[test]
fn image_size_cut_short_fails_and_uses_up_the_source() {
    let mut reader = ByteReader::new(vec![0, 0, 0, 28, 0, 0, 1]);
    assert_eq!(
        reader.read_data::<ImageSize>(&()),
        Err(ReadError::UnexpectedEof)
    );
    assert_eq!(reader.remaining(), 0);
}

#[test]
fn image_takes_one_byte_for_each_pixel_of_its_configuration() {
    let mut reader = ByteReader::new(vec![1, 2, 3, 4, 5, 6, 7]);
    let size = ImageSize { width: 3, height: 2 };
    let image = Image::read_from_bytes(&mut reader, &size).unwrap();
    assert_eq!(image.size(), size);
    assert_eq!(image.pixels(), &[1, 2, 3, 4, 5, 6]);
    assert_eq!(reader.remaining(), 1);
    assert_eq!(
        Image::read_from_bytes(&mut reader, &size).err(),
        Some(ReadError::UnexpectedEof)
    );
    assert_eq!(reader.remaining(), 0);
}

#[test]
fn image_larger_than_any_source_fails() {
    let mut reader = ByteReader::new(vec![1, 2, 3]);
    let size = ImageSize { width: u32::MAX, height: u32::MAX };
    assert_eq!(
        reader.read_data::<Image>(&size).err(),
        Some(ReadError::UnexpectedEof)
    );
    assert_eq!(reader.remaining(), 0);
}

#[test]
fn label_is_one_byte() {
    let mut reader = ByteReader::new(vec![7, 200]);
    assert_eq!(reader.read_data::<Label>(&()), Ok(Label::new(7)));
    assert_eq!(Label::read_from_bytes(&mut reader, &()), Ok(Label::new(200)));
    assert_eq!(
        reader.read_data::<Label>(&()),
        Err(ReadError::UnexpectedEof)
    );
}

#[test]
fn sequence_stops_on_a_failed_read_only() {
    assert!(stop_on_io_error(&Ok::<u8, ReadError>(1)));
    assert!(!stop_on_io_error(&Err::<u8, ReadError>(
        ReadError::UnexpectedEof
    )));
}

#[test]
fn record_sequence_yields_each_record_once() {
    let mut labels: DataIter<Label> = ByteReader::new(vec![3, 1, 4]).data_iter(());
    assert_eq!(labels.next(), Some(Ok(Label::new(3))));
    assert_eq!(labels.next(), Some(Ok(Label::new(1))));
    assert_eq!(labels.next(), Some(Ok(Label::new(4))));
    assert_eq!(labels.next(), None);
    assert_eq!(labels.next(), None);
}

#[test]
fn record_sequence_swallows_the_failed_read_and_stays_ended() {
    let size = ImageSize::square(2);
    let mut images: DataIter<Image> =
        ByteReader::new(vec![1, 2, 3, 4, 5, 6, 7, 8, 9, 10]).data_iter(size);
    let first = images.next().unwrap().unwrap();
    assert_eq!(first.pixels(), &[1, 2, 3, 4]);
    let second = images.next().unwrap().unwrap();
    assert_eq!(second.pixels(), &[5, 6, 7, 8]);
    assert!(images.next().is_none());
    assert!(images.next().is_none());
    assert!(images.next().is_none());
}

#[test]
fn records_without_bytes_never_run_out() {
    let size = ImageSize { width: 0, height: 3 };
    let mut images: DataIter<Image> = ByteReader::new(vec![]).data_iter(size);
    for _ in 0..5 {
        let image = images.next().unwrap().unwrap();
        assert_eq!(image.size(), size);
        assert!(image.pixels().is_empty());
    }
}

#[test]
fn pull_ends_cleanly_at_the_last_byte() {
    let mut labels: DataIter<Label> = ByteReader::new(vec![3, 1]).data_iter(());
    assert_eq!(labels.pull(), Pulled::Item(Label::new(3)));
    assert_eq!(labels.pull(), Pulled::Item(Label::new(1)));
    assert_eq!(labels.pull(), Pulled::Done);
    assert_eq!(labels.pull(), Pulled::Done);
}

#[test]
fn pull_reports_a_record_that_is_cut_short() {
    let size = ImageSize::square(2);
    let mut images: DataIter<Image> =
        ByteReader::new(vec![1, 2, 3, 4, 5, 6, 7]).data_iter(size);
    match images.pull() {
        Pulled::Item(image) => assert_eq!(image.pixels(), &[1, 2, 3, 4]),
        other => panic!("expected an image, got {:?}", other),
    }
    assert_eq!(images.pull(), Pulled::Error(ReadError::UnexpectedEof));
    assert_eq!(images.pull(), Pulled::Done);
}
