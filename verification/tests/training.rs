use digit_recognition::io_ext::{ByteReader, ReadError};
use digit_recognition::training::{
    DataKind, ErrorKind, Image, Label, TrainingDataset, TrainingSample, HEADER_SIZE,
    IMAGE_HEADER_SIZE, MAGIC, MAGIC_SIZE,
};

const MAGIC_BYTES: [u8; MAGIC_SIZE] = [0x00, 0x00, 0x08, 0x01];

const IMAGE_WIDTH: u32 = 2;
const IMAGE_HEIGHT: u32 = 2;

const IMAGE_PIXELS_SIZE: usize =
    1 /* pixel size */ * IMAGE_WIDTH as usize /* width */ * IMAGE_HEIGHT as usize /* height */;

const IMAGE_SIZE: usize = IMAGE_HEADER_SIZE + IMAGE_PIXELS_SIZE;
const LABEL_SIZE: usize = 1 /* digit (1 byte) */;

const NUM_ITEMS: u32 = 2;

const IMAGES_SIZE: usize = HEADER_SIZE + IMAGE_SIZE * NUM_ITEMS as usize;
const LABELS_SIZE: usize = HEADER_SIZE + LABEL_SIZE * NUM_ITEMS as usize;

const LABEL_DIGIT: u8 = 7;

const IMAGES_BYTES: [u8; IMAGES_SIZE] = [
    // magic
    MAGIC_BYTES[0], MAGIC_BYTES[1], MAGIC_BYTES[2], MAGIC_BYTES[3],

    // number of images (in be)
    0x00, 0x00, 0x00, 0x02,

    // begin of the 1st image

    0x00, 0x00, 0x00, 0x02, // width (in be)
    0x00, 0x00, 0x00, 0x02, // height (in be)

    // pixels (row major)
    0x01, 0x02,
    0x03, 0x04,

    // end of the 1st image

    // begin of the 2nd image

    0x00, 0x00, 0x00, 0x02, // width (in be)
    0x00, 0x00, 0x00, 0x02, // height (in be)

    // pixels (row major)
    0x01, 0x02,
    0x03, 0x04,

    // end of the 2nd image
];

const LABELS_BYTES: [u8; LABELS_SIZE] = [
    // magic
    MAGIC_BYTES[0], MAGIC_BYTES[1], MAGIC_BYTES[2], MAGIC_BYTES[3],

    // number of labels (in be)
    0x00, 0x00, 0x00, 0x02,

    // 1st label
    0x07,

    // 2nd label
    0x07,
];

fn image_bytes() -> Vec<u8> {
    IMAGES_BYTES[HEADER_SIZE..HEADER_SIZE + IMAGE_SIZE].to_vec()
}

fn label_bytes() -> Vec<u8> {
    LABELS_BYTES[HEADER_SIZE..HEADER_SIZE + LABEL_SIZE].to_vec()
}

fn image_pixels() -> Vec<u8> {
    const START: usize = HEADER_SIZE + IMAGE_HEADER_SIZE;
    IMAGES_BYTES[START..START + IMAGE_PIXELS_SIZE].to_vec()
}

fn assert_sample_valid(sample: TrainingSample) {
    assert_label_valid(sample.label);
    assert_image_valid(sample.image);
}

fn assert_label_valid(label: Label) {
    assert_eq!(label, Label { digit: LABEL_DIGIT });
}

fn assert_image_valid(image: Image) {
    assert_eq!(
        image,
        Image {
            width: IMAGE_WIDTH,
            height: IMAGE_HEIGHT,
            pixels: image_pixels()
        }
    );
}

fn open_streams(images: &[u8], labels: &[u8]) -> Result<TrainingDataset, ErrorKind> {
    TrainingDataset::builder()
        .with_images(ByteReader::new(images.to_vec()))
        .with_labels(ByteReader::new(labels.to_vec()))
        .build()
}

#[test]
fn test_read_image() {
    let image = Image::read_from(&mut ByteReader::new(image_bytes())).unwrap();

    assert_image_valid(image);
}

#[test]
fn test_read_label() {
    let label = Label::read_from(&mut ByteReader::new(label_bytes())).unwrap();

    assert_label_valid(label);
}

#[test]
fn test_read_training_sample() {
    // Sample is an image and label from 2 different files,
    // so we can avoid duplicating code from tests for respective types.
    test_read_image();
    test_read_label();
}

#[test]
fn test_read_training_dataset() {
    let images = ByteReader::new(IMAGES_BYTES.to_vec());
    let labels = ByteReader::new(LABELS_BYTES.to_vec());

    let mut dataset = TrainingDataset::builder()
        .with_images(images)
        .with_labels(labels)
        .build()
        .unwrap();

    assert_eq!(dataset.sample_count(), NUM_ITEMS);

    assert_eq!(dataset.samples_read(), 0);

    for i in 1..=NUM_ITEMS {
        assert_sample_valid(dataset.next().unwrap().unwrap());
        assert_eq!(dataset.samples_read(), i);
    }

    assert!(dataset.next().is_none());
}

#[test]
fn magic_constant_is_the_big_endian_value_of_its_bytes() {
    assert_eq!(MAGIC, u32::from_be_bytes(MAGIC_BYTES));
    assert_eq!(MAGIC, 0x0000_0801);
}

#[test]
fn sample_reader_pairs_image_and_label() {
    let mut images = ByteReader::new(image_bytes());
    let mut labels = ByteReader::new(label_bytes());
    let sample = TrainingSample::read_from(&mut images, &mut labels).unwrap();
    assert_sample_valid(sample);
    assert_eq!(images.remaining(), 0);
    assert_eq!(labels.remaining(), 0);
}

#[test]
fn sample_reader_leaves_labels_alone_when_the_image_is_cut_short() {
    let mut cut = image_bytes();
    cut.pop();
    let mut images = ByteReader::new(cut);
    let mut labels = ByteReader::new(label_bytes());
    let read = TrainingSample::read_from(&mut images, &mut labels);
    assert_eq!(read, Err(ErrorKind::IO(ReadError::UnexpectedEof)));
    assert_eq!(images.remaining(), 0);
    assert_eq!(labels.remaining(), 1);
}

#[test]
fn image_record_with_no_pixels_is_read() {
    let mut input = ByteReader::new(vec![0, 0, 0, 0, 0, 0, 0, 9, 0xaa]);
    let image = Image::read_from(&mut input).unwrap();
    assert_eq!(image, Image { width: 0, height: 9, pixels: vec![] });
    assert_eq!(input.remaining(), 1);
}

#[test]
fn image_record_larger_than_the_stream_is_an_io_error() {
    let mut input = ByteReader::new(vec![0xff, 0xff, 0xff, 0xff, 0xff, 0xff, 0xff, 0xff, 1, 2]);
    assert_eq!(
        Image::read_from(&mut input),
        Err(ErrorKind::IO(ReadError::UnexpectedEof))
    );
    assert_eq!(input.remaining(), 0);
}

#[test]
fn image_record_cut_inside_its_header_is_an_io_error() {
    let mut input = ByteReader::new(vec![0, 0, 0, 2, 0, 0]);
    assert_eq!(
        Image::read_from(&mut input),
        Err(ErrorKind::IO(ReadError::UnexpectedEof))
    );
}

#[test]
fn wrong_image_magic_is_reported_with_the_number_found() {
    let mut images = IMAGES_BYTES.to_vec();
    images[3] = 0x03;
    let opened = open_streams(&images, &LABELS_BYTES);
    assert_eq!(
        opened.err(),
        Some(ErrorKind::MagicNotFound {
            magic: 0x0000_0803,
            dataset_kind: DataKind::Image
        })
    );
}

#[test]
fn wrong_label_magic_is_reported_with_the_number_found() {
    let mut labels = LABELS_BYTES.to_vec();
    labels[0] = 0x12;
    let opened = open_streams(&IMAGES_BYTES, &labels);
    assert_eq!(
        opened.err(),
        Some(ErrorKind::MagicNotFound {
            magic: 0x1200_0801,
            dataset_kind: DataKind::Label
        })
    );
}

#[test]
fn image_magic_is_checked_before_label_magic() {
    let mut images = IMAGES_BYTES.to_vec();
    images[3] = 0x03;
    let mut labels = LABELS_BYTES.to_vec();
    labels[3] = 0x03;
    let opened = open_streams(&images, &labels);
    assert_eq!(
        opened.err(),
        Some(ErrorKind::MagicNotFound {
            magic: 0x0000_0803,
            dataset_kind: DataKind::Image
        })
    );
}

#[test]
fn self_describing_unequal_counts_are_refused() {
    let mut images = IMAGES_BYTES.to_vec();
    images[7] = 0x03;
    let opened = open_streams(&images, &LABELS_BYTES);
    assert_eq!(
        opened.err(),
        Some(ErrorKind::InvalidLabelCount {
            sample_count: 3,
            label_count: 2
        })
    );
}

#[test]
fn stream_cut_inside_the_header_is_an_io_error() {
    assert_eq!(
        open_streams(&IMAGES_BYTES[..3], &LABELS_BYTES).err(),
        Some(ErrorKind::IO(ReadError::UnexpectedEof))
    );
    assert_eq!(
        open_streams(&IMAGES_BYTES, &LABELS_BYTES[..2]).err(),
        Some(ErrorKind::IO(ReadError::UnexpectedEof))
    );
    assert_eq!(
        open_streams(&IMAGES_BYTES[..6], &LABELS_BYTES).err(),
        Some(ErrorKind::IO(ReadError::UnexpectedEof))
    );
    assert_eq!(
        open_streams(&IMAGES_BYTES, &LABELS_BYTES[..7]).err(),
        Some(ErrorKind::IO(ReadError::UnexpectedEof))
    );
}

#[test]
fn failed_reads_are_handed_out_and_counted() {
    let mut dataset = open_streams(&IMAGES_BYTES[..IMAGES_SIZE - 1], &LABELS_BYTES).unwrap();
    assert_sample_valid(dataset.next().unwrap().unwrap());
    assert_eq!(
        dataset.next(),
        Some(Err(ErrorKind::IO(ReadError::UnexpectedEof)))
    );
    assert_eq!(dataset.samples_read(), 2);
    assert!(dataset.next().is_none());
    assert_eq!(dataset.samples_read(), 2);
}

#[test]
fn builder_knows_when_it_is_complete() {
    let builder = TrainingDataset::builder();
    assert!(!builder.is_complete());
    let builder = builder.with_images(ByteReader::new(IMAGES_BYTES.to_vec()));
    assert!(!builder.is_complete());
    let builder = builder.with_labels(ByteReader::new(LABELS_BYTES.to_vec()));
    assert!(builder.is_complete());
}

#[test]
fn stream_kinds_have_their_names() {
    assert_eq!(DataKind::Image.describe(), "images dataset");
    assert_eq!(DataKind::Label.describe(), "labels dataset");
    assert_eq!(Label { digit: 3 }.digit(), 3);
}

#[test]
fn failed_read_converts_to_an_io_error_of_the_dataset() {
    assert_eq!(
        ErrorKind::from(ReadError::UnexpectedEof),
        ErrorKind::IO(ReadError::UnexpectedEof)
    );
}
