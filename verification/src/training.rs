//! Datasets of self-describing image records: in the image stream every
//! image carries its own width and height in front of its pixels. Both
//! streams start with the same magic number and an item count.

use crate::data::lemma_product_fits_u64;
use crate::io_ext::{after_read, be_u32, ByteReader, ReadError};
use vstd::prelude::*;

verus! {

/// The number of bytes of a magic number.
pub const MAGIC_SIZE: usize = 4;

/// The magic number that both streams start with.
pub const MAGIC: u32 = 0x0000_0801;

/// The number of bytes in front of the pixels of an image record: width
/// and height.
pub const IMAGE_HEADER_SIZE: usize = 8;

/// The number of bytes in front of the items of a stream: magic number and
/// item count.
pub const HEADER_SIZE: usize = 8;

/// Which of the two streams of a dataset.
#[derive(Debug, Copy, Clone, PartialEq, Eq, Structural)]
pub enum DataKind {
    Image,
    Label,
}

impl DataKind {
    /// The name of the stream in messages.
    pub fn describe(&self) -> (name: &'static str)
        ensures
            name@ == match *self {
                DataKind::Image => "images dataset"@,
                DataKind::Label => "labels dataset"@,
            },
    {
        match self {
            DataKind::Image => "images dataset",
            DataKind::Label => "labels dataset",
        }
    }
}

/// Why a dataset could not be opened, or a sample not be read.
#[derive(Debug, Copy, Clone, PartialEq, Eq, Structural)]
pub enum ErrorKind {
    /// A stream starts with `magic`, which is not the magic number.
    MagicNotFound { magic: u32, dataset_kind: DataKind },
    /// A stream ended inside a header or a record.
    IO(ReadError),
    /// The two streams declare different numbers of items.
    InvalidLabelCount { sample_count: u32, label_count: u32 },
}

impl From<ReadError> for ErrorKind {
    /// A failed read is an I/O error.
    fn from(error: ReadError) -> (kind: ErrorKind)
        ensures
            kind == ErrorKind::IO(error),
    {
        ErrorKind::IO(error)
    }
}

impl vstd::std_specs::convert::FromSpecImpl<ReadError> for ErrorKind {
    open spec fn obeys_from_spec() -> bool {
        true
    }

    open spec fn from_spec(error: ReadError) -> ErrorKind {
        ErrorKind::IO(error)
    }
}

/// An image as its record gives it: width, height, and the pixels row by
/// row.
#[derive(Debug, PartialEq)]
pub struct Image {
    pub width: u32,
    pub height: u32,
    pub pixels: Vec<u8>,
}

/// What an image record holds.
pub struct ImageRecord {
    pub width: u32,
    pub height: u32,
    pub pixels: Seq<u8>,
}

impl View for Image {
    type V = ImageRecord;

    open spec fn view(&self) -> ImageRecord {
        ImageRecord { width: self.width, height: self.height, pixels: self.pixels@ }
    }
}

/// The number of bytes of the image record at the front of `unread`, which
/// holds at least the record's width and height: those eight bytes and one
/// byte for each of the `width * height` pixels.
pub open spec fn image_record_len(unread: Seq<u8>) -> nat {
    (IMAGE_HEADER_SIZE + be_u32(unread.subrange(0, 4)) * be_u32(unread.subrange(4, 8))) as nat
}

/// The image record at the front of `unread`, or `None` where `unread`
/// ends inside it.
pub open spec fn front_image(unread: Seq<u8>) -> Option<ImageRecord> {
    if unread.len() >= IMAGE_HEADER_SIZE && unread.len() >= image_record_len(unread) {
        Some(
            ImageRecord {
                width: be_u32(unread.subrange(0, 4)),
                height: be_u32(unread.subrange(4, 8)),
                pixels: unread.subrange(IMAGE_HEADER_SIZE as int, image_record_len(unread) as int),
            },
        )
    } else {
        None
    }
}

/// What is left of `unread` after an attempt to read the image record at
/// its front: nothing where `unread` ends inside the record.
pub open spec fn after_image(unread: Seq<u8>) -> Seq<u8> {
    if front_image(unread) is Some {
        unread.skip(image_record_len(unread) as int)
    } else {
        Seq::empty()
    }
}

impl Image {
    /// Reads one image record: the width and the height, big-endian, and
    /// then `width * height` pixels.
    pub fn read_from(input: &mut ByteReader) -> (read: Result<Image, ErrorKind>)
        ensures
            final(input)@ == after_image(old(input)@),
            match read {
                Ok(image) => front_image(old(input)@) == Some(image@),
                Err(error) => front_image(old(input)@) is None && error == ErrorKind::IO(
                    ReadError::UnexpectedEof,
                ),
            },
    {
        let ghost unread = input@;
        let width: u32 = match input.read_be_u32() {
            Ok(width) => width,
            Err(error) => return Err(ErrorKind::from(error)),
        };
        let height: u32 = match input.read_be_u32() {
            Ok(height) => height,
            Err(error) => return Err(ErrorKind::from(error)),
        };
        proof {
            lemma_product_fits_u64(width, height);
            assert(unread.skip(4).skip(4) == unread.skip(8));
        }
        let area: u64 = (width as u64) * (height as u64);
        if area > input.remaining() as u64 {
            input.skip_to_end();
            return Err(ErrorKind::IO(ReadError::UnexpectedEof));
        }
        let pixels = match input.read_exact(area as usize) {
            Ok(pixels) => pixels,
            Err(error) => return Err(ErrorKind::from(error)),
        };
        proof {
            assert(unread.skip(8).take(area as int) == unread.subrange(8, 8 + area));
        }
        Ok(Image { width, height, pixels })
    }
}

/// The digit that an image shows. Any byte is accepted.
#[derive(Debug, Copy, Clone, PartialEq, Eq, Structural)]
pub struct Label {
    pub digit: u8,
}

impl Label {
    /// Reads one label: a single byte.
    pub fn read_from(input: &mut ByteReader) -> (read: Result<Label, ErrorKind>)
        ensures
            final(input)@ == after_read(old(input)@, 1),
            old(input)@.len() >= 1 ==> read == Ok::<Label, ErrorKind>(
                Label { digit: old(input)@[0] },
            ),
            old(input)@.len() < 1 ==> read == Err::<Label, ErrorKind>(
                ErrorKind::IO(ReadError::UnexpectedEof),
            ),
    {
        match input.read_u8() {
            Ok(digit) => Ok(Label { digit }),
            Err(error) => Err(ErrorKind::from(error)),
        }
    }

    /// The digit.
    pub fn digit(&self) -> (digit: u8)
        ensures
            digit == self.digit,
    {
        self.digit
    }
}

/// An image together with its label.
#[derive(Debug, PartialEq)]
pub struct TrainingSample {
    pub image: Image,
    pub label: Label,
}

/// What a sample holds.
pub struct SampleRecord {
    pub image: ImageRecord,
    pub label: Label,
}

impl View for TrainingSample {
    type V = SampleRecord;

    open spec fn view(&self) -> SampleRecord {
        SampleRecord { image: self.image@, label: self.label }
    }
}

/// The sample that reading one image record from `images` and then one
/// label from `labels` gives, or `None` where one of the two reads fails.
pub open spec fn front_sample(images: Seq<u8>, labels: Seq<u8>) -> Option<SampleRecord> {
    if front_image(images) is Some && labels.len() >= 1 {
        Some(SampleRecord { image: front_image(images)->Some_0, label: Label { digit: labels[0] } })
    } else {
        None
    }
}

/// What is left of the label stream after an attempt to read a sample: the
/// label is read only behind a whole image.
pub open spec fn labels_after_sample(images: Seq<u8>, labels: Seq<u8>) -> Seq<u8> {
    if front_image(images) is Some {
        after_read(labels, 1)
    } else {
        labels
    }
}

impl TrainingSample {
    /// Reads one sample: an image record from `images`, then a label from
    /// `labels`. Where the image cannot be read, `labels` is left alone.
    pub fn read_from(images: &mut ByteReader, labels: &mut ByteReader) -> (read: Result<
        TrainingSample,
        ErrorKind,
    >)
        ensures
            final(images)@ == after_image(old(images)@),
            final(labels)@ == labels_after_sample(old(images)@, old(labels)@),
            match read {
                Ok(sample) => front_sample(old(images)@, old(labels)@) == Some(sample@),
                Err(error) => front_sample(old(images)@, old(labels)@) is None && error
                    == ErrorKind::IO(ReadError::UnexpectedEof),
            },
    {
        let image = match Image::read_from(images) {
            Ok(image) => image,
            Err(error) => return Err(error),
        };
        let label = match Label::read_from(labels) {
            Ok(label) => label,
            Err(error) => return Err(error),
        };
        Ok(TrainingSample { image, label })
    }
}

/// What a dataset is at some point of its use: the bytes of the two
/// streams that are still to be read, the number of samples that the
/// headers declared, and the number of reads made so far.
pub struct DatasetView {
    pub images: Seq<u8>,
    pub labels: Seq<u8>,
    pub sample_count: u32,
    pub samples_read: u32,
}

impl DatasetView {
    /// Whether all declared samples have been asked for.
    pub open spec fn finished(self) -> bool {
        self.samples_read >= self.sample_count
    }

    /// What the next pull hands out: nothing once all declared samples
    /// have been asked for; before that the sample at the front of the
    /// streams, or the error of reading it.
    pub open spec fn next_item(self) -> Option<Result<SampleRecord, ErrorKind>> {
        if self.finished() {
            None
        } else {
            match front_sample(self.images, self.labels) {
                Some(sample) => Some(Ok(sample)),
                None => Some(Err(ErrorKind::IO(ReadError::UnexpectedEof))),
            }
        }
    }

    /// The dataset after the next pull: a read that is made counts,
    /// whether it succeeds or fails.
    pub open spec fn after_next(self) -> DatasetView {
        if self.finished() {
            self
        } else {
            DatasetView {
                images: after_image(self.images),
                labels: labels_after_sample(self.images, self.labels),
                sample_count: self.sample_count,
                samples_read: (self.samples_read + 1) as u32,
            }
        }
    }
}

/// What checking the magic number at the front of a stream gives.
pub open spec fn magic_check(unread: Seq<u8>, dataset_kind: DataKind) -> Result<(), ErrorKind> {
    if unread.len() < MAGIC_SIZE {
        Err(ErrorKind::IO(ReadError::UnexpectedEof))
    } else if be_u32(unread.take(4)) == MAGIC {
        Ok(())
    } else {
        Err(ErrorKind::MagicNotFound { magic: be_u32(unread.take(4)), dataset_kind })
    }
}

/// What opening a dataset on the two streams gives. The checks come in
/// this order: the magic number of the image stream, the magic number of
/// the label stream, the presence of both item counts, their equality.
pub open spec fn open_dataset(images: Seq<u8>, labels: Seq<u8>) -> Result<DatasetView, ErrorKind> {
    if magic_check(images, DataKind::Image) is Err {
        Err(magic_check(images, DataKind::Image)->Err_0)
    } else if magic_check(labels, DataKind::Label) is Err {
        Err(magic_check(labels, DataKind::Label)->Err_0)
    } else if images.len() < HEADER_SIZE || labels.len() < HEADER_SIZE {
        Err(ErrorKind::IO(ReadError::UnexpectedEof))
    } else if be_u32(images.subrange(4, 8)) != be_u32(labels.subrange(4, 8)) {
        Err(
            ErrorKind::InvalidLabelCount {
                sample_count: be_u32(images.subrange(4, 8)),
                label_count: be_u32(labels.subrange(4, 8)),
            },
        )
    } else {
        Ok(
            DatasetView {
                images: images.skip(HEADER_SIZE as int),
                labels: labels.skip(HEADER_SIZE as int),
                sample_count: be_u32(images.subrange(4, 8)),
                samples_read: 0,
            },
        )
    }
}

/// A dataset of labeled images, read sample by sample from an image stream
/// and a label stream.
pub struct TrainingDataset {
    sample_count: u32,
    images: ByteReader,
    labels: ByteReader,
    samples_read: u32,
}

impl View for TrainingDataset {
    type V = DatasetView;

    closed spec fn view(&self) -> DatasetView {
        DatasetView {
            images: self.images@,
            labels: self.labels@,
            sample_count: self.sample_count,
            samples_read: self.samples_read,
        }
    }
}

impl TrainingDataset {
    /// A builder with neither stream set.
    pub fn builder() -> (builder: TrainingDatasetBuilder)
        ensures
            builder@ == (BuilderView { images: None, labels: None }),
    {
        TrainingDatasetBuilder { images: None, labels: None }
    }

    /// The number of samples that the headers declared.
    pub fn sample_count(&self) -> (count: u32)
        ensures
            count == self@.sample_count,
    {
        self.sample_count
    }

    /// The number of reads made so far, failed ones included.
    pub fn samples_read(&self) -> (count: u32)
        ensures
            count == self@.samples_read,
    {
        self.samples_read
    }

    /// The next sample or the error of reading it, or `None` once as many
    /// reads were made as the headers declared samples.
    pub fn next(&mut self) -> (item: Option<Result<TrainingSample, ErrorKind>>)
        ensures
            final(self)@ == old(self)@.after_next(),
            match item {
                Some(Ok(sample)) => old(self)@.next_item() == Some(
                    Ok::<SampleRecord, ErrorKind>(sample@),
                ),
                Some(Err(error)) => old(self)@.next_item() == Some(
                    Err::<SampleRecord, ErrorKind>(error),
                ),
                None => old(self)@.next_item() is None,
            },
    {
        if self.samples_read >= self.sample_count {
            None
        } else {
            let sample = TrainingSample::read_from(&mut self.images, &mut self.labels);
            self.samples_read += 1;
            Some(sample)
        }
    }
}

/// What a builder holds: the unread bytes of each stream that was set.
pub struct BuilderView {
    pub images: Option<Seq<u8>>,
    pub labels: Option<Seq<u8>>,
}

/// Collects the two streams of a dataset, and reads their headers when the
/// dataset is built.
pub struct TrainingDatasetBuilder {
    images: Option<ByteReader>,
    labels: Option<ByteReader>,
}

impl View for TrainingDatasetBuilder {
    type V = BuilderView;

    closed spec fn view(&self) -> BuilderView {
        BuilderView {
            images: match self.images {
                Some(images) => Some(images@),
                None => None,
            },
            labels: match self.labels {
                Some(labels) => Some(labels@),
                None => None,
            },
        }
    }
}

impl TrainingDatasetBuilder {
    /// Sets the image stream.
    pub fn with_images(self, images: ByteReader) -> (builder: TrainingDatasetBuilder)
        ensures
            builder@ == (BuilderView { images: Some(images@), labels: self@.labels }),
    {
        TrainingDatasetBuilder { images: Some(images), labels: self.labels }
    }

    /// Sets the label stream.
    pub fn with_labels(self, labels: ByteReader) -> (builder: TrainingDatasetBuilder)
        ensures
            builder@ == (BuilderView { images: self@.images, labels: Some(labels@) }),
    {
        TrainingDatasetBuilder { images: self.images, labels: Some(labels) }
    }

    /// Whether both streams are set, as `build` asks.
    pub fn is_complete(&self) -> (complete: bool)
        ensures
            complete == (self@.images is Some && self@.labels is Some),
    {
        self.images.is_some() && self.labels.is_some()
    }

    /// Opens the dataset on the two streams, which must both be set:
    /// checks both magic numbers, reads both item counts, and refuses
    /// streams whose item counts differ.
    pub fn build(self) -> (built: Result<TrainingDataset, ErrorKind>)
        requires
            self@.images is Some,
            self@.labels is Some,
        ensures
            match built {
                Ok(dataset) => open_dataset(self@.images->Some_0, self@.labels->Some_0) == Ok::<
                    DatasetView,
                    ErrorKind,
                >(dataset@),
                Err(error) => open_dataset(self@.images->Some_0, self@.labels->Some_0) == Err::<
                    DatasetView,
                    ErrorKind,
                >(error),
            },
    {
        let mut images = self.images.unwrap();
        let mut labels = self.labels.unwrap();
        let ghost image_bytes = images@;
        let ghost label_bytes = labels@;

        let magic: u32 = match images.read_be_u32() {
            Ok(magic) => magic,
            Err(error) => return Err(ErrorKind::from(error)),
        };
        if magic != MAGIC {
            return Err(ErrorKind::MagicNotFound { magic, dataset_kind: DataKind::Image });
        }
        let magic: u32 = match labels.read_be_u32() {
            Ok(magic) => magic,
            Err(error) => return Err(ErrorKind::from(error)),
        };
        if magic != MAGIC {
            return Err(ErrorKind::MagicNotFound { magic, dataset_kind: DataKind::Label });
        }
        let image_count: u32 = match images.read_be_u32() {
            Ok(count) => count,
            Err(error) => return Err(ErrorKind::from(error)),
        };
        let label_count: u32 = match labels.read_be_u32() {
            Ok(count) => count,
            Err(error) => return Err(ErrorKind::from(error)),
        };
        proof {
            assert(image_bytes.skip(4).skip(4) == image_bytes.skip(8));
            assert(label_bytes.skip(4).skip(4) == label_bytes.skip(8));
        }
        if image_count == label_count {
            Ok(TrainingDataset { sample_count: image_count, images, labels, samples_read: 0 })
        } else {
            Err(ErrorKind::InvalidLabelCount { sample_count: image_count, label_count })
        }
    }
}

/// A stream that does not start with the magic number is refused with
/// `MagicNotFound`, which carries the number found and the kind of the
/// stream; the image stream is looked at first.
pub proof fn lemma_wrong_magic_refused(images: Seq<u8>, labels: Seq<u8>)
    requires
        images.len() >= MAGIC_SIZE,
        labels.len() >= MAGIC_SIZE,
    ensures
        be_u32(images.take(4)) != MAGIC ==> open_dataset(images, labels) == Err::<
            DatasetView,
            ErrorKind,
        >(
            ErrorKind::MagicNotFound {
                magic: be_u32(images.take(4)),
                dataset_kind: DataKind::Image,
            },
        ),
        be_u32(images.take(4)) == MAGIC && be_u32(labels.take(4)) != MAGIC ==> open_dataset(
            images,
            labels,
        ) == Err::<DatasetView, ErrorKind>(
            ErrorKind::MagicNotFound {
                magic: be_u32(labels.take(4)),
                dataset_kind: DataKind::Label,
            },
        ),
{
}

/// Two streams with good magic numbers that declare different item counts
/// are refused with `InvalidLabelCount`, which carries both counts.
pub proof fn lemma_unequal_counts_refused(images: Seq<u8>, labels: Seq<u8>)
    requires
        images.len() >= HEADER_SIZE,
        labels.len() >= HEADER_SIZE,
        be_u32(images.take(4)) == MAGIC,
        be_u32(labels.take(4)) == MAGIC,
        be_u32(images.subrange(4, 8)) != be_u32(labels.subrange(4, 8)),
    ensures
        open_dataset(images, labels) == Err::<DatasetView, ErrorKind>(
            ErrorKind::InvalidLabelCount {
                sample_count: be_u32(images.subrange(4, 8)),
                label_count: be_u32(labels.subrange(4, 8)),
            },
        ),
{
}

/// A pull hands out something if and only if fewer reads were made than
/// the headers declared samples, and it then counts as one read, whether
/// the read succeeded or failed.
pub proof fn lemma_every_read_counts(dataset: DatasetView)
    ensures
        dataset.next_item() is Some <==> dataset.samples_read < dataset.sample_count,
        dataset.next_item() is Some ==> dataset.after_next().samples_read == dataset.samples_read
            + 1,
        dataset.next_item() is None ==> dataset.after_next() == dataset,
        dataset.after_next().sample_count == dataset.sample_count,
{
}

/// The end of the sequence is permanent: after a pull that hands out
/// nothing, no later pull hands out anything.
pub proof fn lemma_end_is_permanent(dataset: DatasetView)
    requires
        dataset.next_item() is None,
    ensures
        dataset.after_next().next_item() is None,
{
}

/// After a failed read every later read fails: the stream that ended
/// inside a record is used up, and the declared count alone ends the
/// sequence.
pub proof fn lemma_failure_repeats(dataset: DatasetView)
    requires
        dataset.next_item() matches Some(Err(_)),
    ensures
        !(dataset.after_next().next_item() matches Some(Ok(_))),
{
}

} // verus!
