//! The labeled dataset: an image stream and a label stream, each behind its
//! own header, zipped into training samples. All images share the geometry
//! that the image header gives.

use crate::data::{Image, ImageSize, ImageView};
use crate::io_ext::{
    after_read, be_u32, ByteReader, DataIter, IntoDataIter, Pulled, ReadData, ReadError,
    ReadFromBytes,
};
use vstd::prelude::*;

verus! {

/// The magic number at the front of an image stream.
pub const IMAGES_MAGIC: u32 = 0x0000_0803;

/// The magic number at the front of a label stream.
pub const LABELS_MAGIC: u32 = 0x0000_0801;

/// The number of header bytes of an image stream: magic number, item count,
/// width and height.
pub const IMAGES_HEADER_LEN: usize = 16;

/// The number of header bytes of a label stream: magic number and item
/// count.
pub const LABELS_HEADER_LEN: usize = 8;

/// The most samples that one training run takes from a dataset.
pub const TRAINING_SAMPLE_LIMIT: usize = 10_000;

/// Which of the two streams of a dataset.
#[derive(Debug, Copy, Clone, PartialEq, Eq, Structural)]
pub enum DataKind {
    Image,
    Label,
}

impl DataKind {
    /// The name of the stream in messages.
    pub fn describe(&self) -> (name: &'static str)
        ensures
            name@ == match *self {
                DataKind::Image => "images dataset"@,
                DataKind::Label => "labels dataset"@,
            },
    {
        match self {
            DataKind::Image => "images dataset",
            DataKind::Label => "labels dataset",
        }
    }
}

/// Why a dataset could not be opened.
#[derive(Debug, Copy, Clone, PartialEq, Eq, Structural)]
pub enum ErrorKind {
    /// A stream does not start with the magic number of its kind.
    MagicNotFound { found: u32, expected: u32, kind: DataKind },
    /// A stream ended inside its header.
    IO(ReadError),
    /// The two streams declare different numbers of items.
    InvalidLabelCount { sample_count: u32, label_count: u32 },
}

impl From<ReadError> for ErrorKind {
    /// A failed read is an I/O error.
    fn from(error: ReadError) -> (kind: ErrorKind)
        ensures
            kind == ErrorKind::IO(error),
    {
        ErrorKind::IO(error)
    }
}

impl vstd::std_specs::convert::FromSpecImpl<ReadError> for ErrorKind {
    open spec fn obeys_from_spec() -> bool {
        true
    }

    open spec fn from_spec(error: ReadError) -> ErrorKind {
        ErrorKind::IO(error)
    }
}

impl ReadFromBytes for ImageSize {
    type Config = ();

    /// Two 32-bit integers.
    open spec fn encoded_len(config: &()) -> nat {
        8
    }

    /// The width, then the height, each big-endian.
    open spec fn decode(bytes: Seq<u8>, config: &()) -> ImageSize {
        ImageSize { width: be_u32(bytes.subrange(0, 4)), height: be_u32(bytes.subrange(4, 8)) }
    }

    fn read_from_bytes(input: &mut ByteReader, _config: &()) -> (read: Result<
        ImageSize,
        ReadError,
    >) {
        let width: u32 = match input.read_be_u32() {
            Ok(width) => width,
            Err(error) => return Err(error),
        };
        let height: u32 = match input.read_be_u32() {
            Ok(height) => height,
            Err(error) => return Err(error),
        };
        Ok(ImageSize { width, height })
    }
}

impl ReadFromBytes for Image {
    type Config = ImageSize;

    /// One byte for each pixel of the shared geometry.
    open spec fn encoded_len(config: &ImageSize) -> nat {
        config.pixel_count()
    }

    /// The bytes are the pixels, row by row.
    open spec fn decode(bytes: Seq<u8>, config: &ImageSize) -> ImageView {
        ImageView { size: *config, pixels: bytes }
    }

    fn read_from_bytes(input: &mut ByteReader, config: &ImageSize) -> (read: Result<
        Image,
        ReadError,
    >) {
        proof {
            input.lemma_len_fits_usize();
        }
        match config.checked_area() {
            Some(count) => match input.read_exact(count) {
                Ok(pixels) => Ok(
                    Image::builder().with_size(*config).with_pixels_row_major(pixels).build(),
                ),
                Err(error) => Err(error),
            },
            None => {
                input.skip_to_end();
                Err(ReadError::UnexpectedEof)
            },
        }
    }
}

/// The digit that an image shows. Any byte is accepted.
#[derive(Debug, Copy, Clone, PartialEq)]
pub struct Label {
    digit: u8,
}

impl View for Label {
    type V = u8;

    closed spec fn view(&self) -> u8 {
        self.digit
    }
}

impl Label {
    /// The label of the given digit.
    pub fn new(digit: u8) -> (label: Label)
        ensures
            label@ == digit,
    {
        Label { digit }
    }

    /// The digit.
    pub fn digit(&self) -> (digit: u8)
        ensures
            digit == self@,
    {
        self.digit
    }
}

impl ReadFromBytes for Label {
    type Config = ();

    /// One byte.
    open spec fn encoded_len(config: &()) -> nat {
        1
    }

    /// The byte is the digit.
    open spec fn decode(bytes: Seq<u8>, config: &()) -> u8 {
        bytes[0]
    }

    fn read_from_bytes(input: &mut ByteReader, _config: &()) -> (read: Result<Label, ReadError>) {
        match input.read_u8() {
            Ok(digit) => Ok(Label::new(digit)),
            Err(error) => Err(error),
        }
    }
}

/// What a training sample is: an image and the digit it shows.
pub struct SampleView {
    pub image: ImageView,
    pub label: u8,
}

/// An image together with its label: the two records at the same position
/// of the two streams.
#[derive(Debug, PartialEq)]
pub struct LabeledTrainingData {
    image: Image,
    label: Label,
}

impl View for LabeledTrainingData {
    type V = SampleView;

    closed spec fn view(&self) -> SampleView {
        SampleView { image: self.image@, label: self.label@ }
    }
}

impl LabeledTrainingData {
    /// Pairs an image with its label.
    pub fn new(image: Image, label: Label) -> (sample: LabeledTrainingData)
        ensures
            sample@ == (SampleView { image: image@, label: label@ }),
    {
        LabeledTrainingData { image, label }
    }

    /// The image.
    pub fn image(&self) -> (image: &Image)
        ensures
            image@ == self@.image,
    {
        &self.image
    }

    /// The label.
    pub fn label(&self) -> (label: &Label)
        ensures
            label@ == self@.label,
    {
        &self.label
    }
}

/// The samples that a vector holds, each by its view.
pub open spec fn sample_views(samples: Seq<LabeledTrainingData>) -> Seq<SampleView> {
    samples.map_values(|sample: LabeledTrainingData| sample@)
}

/// The magic number that a stream of the given kind starts with.
pub open spec fn spec_magic(data_kind: DataKind) -> u32 {
    match data_kind {
        DataKind::Image => IMAGES_MAGIC,
        DataKind::Label => LABELS_MAGIC,
    }
}

/// The magic number that a stream of the given kind starts with.
pub fn magic(data_kind: DataKind) -> (number: u32)
    ensures
        number == spec_magic(data_kind),
{
    match data_kind {
        DataKind::Image => IMAGES_MAGIC,
        DataKind::Label => LABELS_MAGIC,
    }
}

/// What checking the first four bytes of a stream of the given kind gives:
/// an I/O error where there are fewer than four, `MagicNotFound` where they
/// spell another number than the kind's magic number.
pub open spec fn magic_check(unread: Seq<u8>, data_kind: DataKind) -> Result<(), ErrorKind> {
    if unread.len() < 4 {
        Err(ErrorKind::IO(ReadError::UnexpectedEof))
    } else if be_u32(unread.take(4)) == spec_magic(data_kind) {
        Ok(())
    } else {
        Err(
            ErrorKind::MagicNotFound {
                found: be_u32(unread.take(4)),
                expected: spec_magic(data_kind),
                kind: data_kind,
            },
        )
    }
}

/// Reads the magic number at the front of `input` and checks it against
/// the one of the given kind.
pub fn verify_magic(input: &mut ByteReader, data_kind: DataKind) -> (checked: Result<(), ErrorKind>)
    ensures
        final(input)@ == after_read(old(input)@, 4),
        checked == magic_check(old(input)@, data_kind),
{
    let found: u32 = match input.read_be_u32() {
        Ok(found) => found,
        Err(error) => return Err(ErrorKind::from(error)),
    };
    if found == magic(data_kind) {
        Ok(())
    } else {
        Err(ErrorKind::MagicNotFound { found, expected: magic(data_kind), kind: data_kind })
    }
}

/// The image stream behind its magic number: the declared number of images
/// and the images themselves, all of the geometry that the header gives.
struct TrainingImageSet {
    images: DataIter<Image>,
    image_count: u32,
}

impl TrainingImageSet {
    /// Reads the item count and the shared geometry, and leaves the rest of
    /// `input` to be decoded as images of that geometry.
    fn try_from(input: ByteReader) -> (set: Result<TrainingImageSet, ErrorKind>)
        ensures
            input@.len() < 12 ==> set == Err::<TrainingImageSet, ErrorKind>(
                ErrorKind::IO(ReadError::UnexpectedEof),
            ),
            input@.len() >= 12 ==> set is Ok && set->Ok_0.image_count == be_u32(
                input@.subrange(0, 4),
            ) && set->Ok_0.images.config() == (ImageSize {
                width: be_u32(input@.subrange(4, 8)),
                height: be_u32(input@.subrange(8, 12)),
            }) && set->Ok_0.images.unread() == input@.skip(12),
    {
        let mut input = input;
        let image_count: u32 = match input.read_be_u32() {
            Ok(count) => count,
            Err(error) => return Err(ErrorKind::from(error)),
        };
        let image_size = match input.read_data::<ImageSize>(&()) {
            Ok(size) => size,
            Err(error) => return Err(ErrorKind::from(error)),
        };
        Ok(TrainingImageSet { images: input.data_iter(image_size), image_count })
    }
}

/// The label stream behind its magic number: the declared number of labels
/// and the labels themselves.
struct TrainingLabelSet {
    labels: DataIter<Label>,
    label_count: u32,
}

impl TrainingLabelSet {
    /// Reads the item count, and leaves the rest of `input` to be decoded
    /// as labels.
    fn try_from(input: ByteReader) -> (set: Result<TrainingLabelSet, ErrorKind>)
        ensures
            input@.len() < 4 ==> set == Err::<TrainingLabelSet, ErrorKind>(
                ErrorKind::IO(ReadError::UnexpectedEof),
            ),
            input@.len() >= 4 ==> set is Ok && set->Ok_0.label_count == be_u32(input@.take(4))
                && set->Ok_0.labels.unread() == input@.skip(4),
    {
        let mut input = input;
        let label_count: u32 = match input.read_be_u32() {
            Ok(count) => count,
            Err(error) => return Err(ErrorKind::from(error)),
        };
        Ok(TrainingLabelSet { labels: input.data_iter(()), label_count })
    }
}

/// What a dataset is at some point of its use: the bytes of the two
/// streams that are still to be decoded, the geometry that all images
/// share, the number of samples that the headers declared, and the number
/// of samples handed out so far.
pub struct DatasetView {
    pub images: Seq<u8>,
    pub labels: Seq<u8>,
    pub image_size: ImageSize,
    pub size: u32,
    pub read: u32,
}

impl DatasetView {
    /// The sample that the next pull hands out: the image and the label at
    /// the front of the two streams, as long as fewer samples were handed
    /// out than declared and both streams still hold a whole record.
    pub open spec fn next_sample(self) -> Option<SampleView> {
        if self.read < self.size && self.image_size.pixel_count() <= self.images.len() && 1
            <= self.labels.len() {
            Some(
                SampleView {
                    image: ImageView {
                        size: self.image_size,
                        pixels: self.images.take(self.image_size.pixel_count() as int),
                    },
                    label: self.labels[0],
                },
            )
        } else {
            None
        }
    }

    /// What the next pull gives when the two ends are told apart: `Done` at
    /// the declared count, and before it the next sample, or an I/O error
    /// where a stream holds no whole record any more.
    pub open spec fn next_pulled(self) -> Pulled<SampleView, ErrorKind> {
        if self.read >= self.size {
            Pulled::Done
        } else {
            match self.next_sample() {
                Some(sample) => Pulled::Item(sample),
                None => Pulled::Error(ErrorKind::IO(ReadError::UnexpectedEof)),
            }
        }
    }

    /// The dataset after the next pull. At the declared count nothing is
    /// read. Before it, an image is read, and a label if there was a whole
    /// image; a stream that is too short for its record is used up.
    pub open spec fn after_next(self) -> DatasetView {
        if self.read >= self.size {
            self
        } else if self.image_size.pixel_count() > self.images.len() {
            DatasetView { images: Seq::empty(), ..self }
        } else {
            DatasetView {
                images: self.images.skip(self.image_size.pixel_count() as int),
                labels: after_read(self.labels, 1),
                read: if 1 <= self.labels.len() {
                    (self.read + 1) as u32
                } else {
                    self.read
                },
                ..self
            }
        }
    }

    /// The samples that the next `limit` pulls hand out, in order: pulling
    /// stops at the first one that hands out nothing.
    pub open spec fn samples(self, limit: nat) -> Seq<SampleView>
        decreases limit,
    {
        if limit == 0 {
            Seq::empty()
        } else {
            match self.next_sample() {
                Some(sample) => seq![sample] + self.after_next().samples((limit - 1) as nat),
                None => Seq::empty(),
            }
        }
    }

    /// The dataset after the pulls that `samples` describes, the one that
    /// hands out nothing included.
    pub open spec fn after_samples(self, limit: nat) -> DatasetView
        decreases limit,
    {
        if limit == 0 {
            self
        } else {
            match self.next_sample() {
                Some(_) => self.after_next().after_samples((limit - 1) as nat),
                None => self.after_next(),
            }
        }
    }

    /// The sample at position `index` of what is still to be decoded: the
    /// image and the label that stand at that position of their streams.
    pub open spec fn sample_at(self, index: nat) -> SampleView {
        SampleView {
            image: ImageView {
                size: self.image_size,
                pixels: self.images.subrange(
                    (index * self.image_size.pixel_count()) as int,
                    ((index + 1) * self.image_size.pixel_count()) as int,
                ),
            },
            label: self.labels[index as int],
        }
    }

    /// Whether `limit` pulls reach the sample at position `index`: the
    /// limit and the declared count allow it, and both streams hold their
    /// records up to that position.
    pub open spec fn reaches(self, limit: nat, index: nat) -> bool {
        &&& index < limit
        &&& self.read + index < self.size
        &&& (index + 1) * self.image_size.pixel_count() <= self.images.len()
        &&& index + 1 <= self.labels.len()
    }
}

/// What opening a dataset on the two streams gives. The checks come in
/// this order: the magic number of the image stream, the magic number of
/// the label stream, the presence of the rest of both headers, the
/// equality of the two item counts.
pub open spec fn open_dataset(images: Seq<u8>, labels: Seq<u8>) -> Result<DatasetView, ErrorKind> {
    if magic_check(images, DataKind::Image) is Err {
        Err(magic_check(images, DataKind::Image)->Err_0)
    } else if magic_check(labels, DataKind::Label) is Err {
        Err(magic_check(labels, DataKind::Label)->Err_0)
    } else if images.len() < IMAGES_HEADER_LEN || labels.len() < LABELS_HEADER_LEN {
        Err(ErrorKind::IO(ReadError::UnexpectedEof))
    } else if be_u32(images.subrange(4, 8)) != be_u32(labels.subrange(4, 8)) {
        Err(
            ErrorKind::InvalidLabelCount {
                sample_count: be_u32(images.subrange(4, 8)),
                label_count: be_u32(labels.subrange(4, 8)),
            },
        )
    } else {
        Ok(
            DatasetView {
                images: images.skip(IMAGES_HEADER_LEN as int),
                labels: labels.skip(LABELS_HEADER_LEN as int),
                image_size: ImageSize {
                    width: be_u32(images.subrange(8, 12)),
                    height: be_u32(images.subrange(12, 16)),
                },
                size: be_u32(images.subrange(4, 8)),
                read: 0,
            },
        )
    }
}

/// A dataset of labeled images, decoded sample by sample from an image
/// stream and a label stream.
pub struct TrainingDataset {
    images: TrainingImageSet,
    labels: TrainingLabelSet,
    read: u32,
}

impl View for TrainingDataset {
    type V = DatasetView;

    closed spec fn view(&self) -> DatasetView {
        DatasetView {
            images: self.images.images.unread(),
            labels: self.labels.labels.unread(),
            image_size: self.images.images.config(),
            size: self.images.image_count,
            read: self.read,
        }
    }
}

impl TrainingDataset {
    fn new(images: TrainingImageSet, labels: TrainingLabelSet) -> (dataset: TrainingDataset)
        ensures
            dataset@ == (DatasetView {
                images: images.images.unread(),
                labels: labels.labels.unread(),
                image_size: images.images.config(),
                size: images.image_count,
                read: 0,
            }),
    {
        TrainingDataset { images, labels, read: 0 }
    }

    /// Opens a dataset on an image stream and a label stream: checks both
    /// magic numbers, reads both item counts and the shared geometry, and
    /// refuses streams whose item counts differ.
    pub fn from_readers(images: ByteReader, labels: ByteReader) -> (opened: Result<
        TrainingDataset,
        ErrorKind,
    >)
        ensures
            match opened {
                Ok(dataset) => open_dataset(images@, labels@) == Ok::<DatasetView, ErrorKind>(
                    dataset@,
                ),
                Err(error) => open_dataset(images@, labels@) == Err::<DatasetView, ErrorKind>(
                    error,
                ),
            },
    {
        let mut images = images;
        let mut labels = labels;
        let ghost image_bytes = images@;
        let ghost label_bytes = labels@;
        match verify_magic(&mut images, DataKind::Image) {
            Ok(()) => {},
            Err(error) => return Err(error),
        }
        match verify_magic(&mut labels, DataKind::Label) {
            Ok(()) => {},
            Err(error) => return Err(error),
        }
        proof {
            if image_bytes.len() >= 16 {
                assert(image_bytes.skip(4).skip(12) == image_bytes.skip(16));
            }
            if label_bytes.len() >= 8 {
                assert(label_bytes.skip(4).skip(4) == label_bytes.skip(8));
            }
        }
        let images = match TrainingImageSet::try_from(images) {
            Ok(set) => set,
            Err(error) => return Err(error),
        };
        let labels = match TrainingLabelSet::try_from(labels) {
            Ok(set) => set,
            Err(error) => return Err(error),
        };
        if images.image_count != labels.label_count {
            return Err(
                ErrorKind::InvalidLabelCount {
                    sample_count: images.image_count,
                    label_count: labels.label_count,
                },
            );
        }
        Ok(TrainingDataset::new(images, labels))
    }

    /// The number of samples that the headers declared.
    pub fn size(&self) -> (size: u32)
        ensures
            size == self@.size,
    {
        self.images.image_count
    }

    /// The number of samples handed out so far.
    pub fn read(&self) -> (read: u32)
        ensures
            read == self@.read,
    {
        self.read
    }

    /// The next sample, or `None` at the end of the sequence: when as many
    /// samples were handed out as the headers declared, or when one of the
    /// streams holds no whole record any more. A stream that ends early is
    /// not reported: `Some(Err(_))` is never returned.
    pub fn next(&mut self) -> (item: Option<Result<LabeledTrainingData, ErrorKind>>)
        ensures
            final(self)@ == old(self)@.after_next(),
            match item {
                Some(Ok(sample)) => old(self)@.next_sample() == Some(sample@),
                Some(Err(_)) => false,
                None => old(self)@.next_sample() is None,
            },
    {
        if self.read < self.size() {
            let image = match self.images.images.next() {
                Some(Ok(image)) => image,
                Some(Err(error)) => return Some(Err(ErrorKind::from(error))),
                None => return None,
            };
            let label = match self.labels.labels.next() {
                Some(Ok(label)) => label,
                Some(Err(error)) => return Some(Err(ErrorKind::from(error))),
                None => return None,
            };
            self.read += 1;
            Some(Ok(LabeledTrainingData::new(image, label)))
        } else {
            None
        }
    }

    /// The next sample like `next`, but telling the two ends apart: `Done`
    /// when as many samples were handed out as the headers declared,
    /// `Error` when a stream ends before that.
    pub fn pull(&mut self) -> (pulled: Pulled<LabeledTrainingData, ErrorKind>)
        ensures
            final(self)@ == old(self)@.after_next(),
            match pulled {
                Pulled::Item(sample) => old(self)@.next_pulled() == Pulled::<
                    SampleView,
                    ErrorKind,
                >::Item(sample@),
                Pulled::Error(error) => old(self)@.next_pulled() == Pulled::<
                    SampleView,
                    ErrorKind,
                >::Error(error),
                Pulled::Done => old(self)@.next_pulled() == Pulled::<SampleView, ErrorKind>::Done,
            },
    {
        if self.read < self.size() {
            let image = match self.images.images.pull() {
                Pulled::Item(image) => image,
                Pulled::Error(error) => return Pulled::Error(ErrorKind::from(error)),
                Pulled::Done => return Pulled::Error(ErrorKind::IO(ReadError::UnexpectedEof)),
            };
            let label = match self.labels.labels.pull() {
                Pulled::Item(label) => label,
                Pulled::Error(error) => return Pulled::Error(ErrorKind::from(error)),
                Pulled::Done => return Pulled::Error(ErrorKind::IO(ReadError::UnexpectedEof)),
            };
            self.read += 1;
            Pulled::Item(LabeledTrainingData::new(image, label))
        } else {
            Pulled::Done
        }
    }

    /// The samples of the next `limit` pulls, in order; fewer where the
    /// sequence ends before. Pulling stops at the first pull that hands
    /// out nothing.
    pub fn take(&mut self, limit: usize) -> (samples: Vec<LabeledTrainingData>)
        ensures
            sample_views(samples@) == old(self)@.samples(limit as nat),
            final(self)@ == old(self)@.after_samples(limit as nat),
    {
        let ghost start = self@;
        let mut samples: Vec<LabeledTrainingData> = Vec::new();
        let mut taken: usize = 0;
        while taken < limit
            invariant
                taken <= limit,
                start == old(self)@,
                start.samples(limit as nat) == sample_views(samples@) + self@.samples(
                    (limit - taken) as nat,
                ),
                start.after_samples(limit as nat) == self@.after_samples((limit - taken) as nat),
            decreases limit - taken,
        {
            match self.next() {
                Some(Ok(sample)) => {
                    samples.push(sample);
                    taken += 1;
                },
                _ => {
                    return samples;
                },
            }
        }
        samples
    }
}

/// The number of digit classes: the digits from zero to nine.
pub const DIGIT_CLASSES: usize = 10;

/// The number of samples among `samples` that show `digit`.
pub open spec fn occurrences(samples: Seq<SampleView>, digit: u8) -> nat {
    samples.filter(|sample: SampleView| sample.label == digit).len()
}

/// How often each digit occurs among the labels of `samples`, which must
/// all be digits: the count of digit `d` stands at index `d`.
pub fn count_digits(samples: &Vec<LabeledTrainingData>) -> (counts: Vec<usize>)
    requires
        forall|i: int| 0 <= i < samples@.len() ==> (#[trigger] samples@[i])@.label < DIGIT_CLASSES,
    ensures
        counts@.len() == DIGIT_CLASSES,
        forall|digit: int|
            0 <= digit < DIGIT_CLASSES ==> #[trigger] counts@[digit] == occurrences(
                sample_views(samples@),
                digit as u8,
            ),
{
    let mut counts: Vec<usize> = Vec::new();
    while counts.len() < DIGIT_CLASSES
        invariant
            counts@.len() <= DIGIT_CLASSES,
            forall|digit: int| 0 <= digit < counts@.len() ==> counts@[digit] == 0,
        decreases DIGIT_CLASSES - counts@.len(),
    {
        counts.push(0);
    }
    let ghost views = sample_views(samples@);
    let mut seen: usize = 0;
    while seen < samples.len()
        invariant
            seen <= samples@.len(),
            views == sample_views(samples@),
            counts@.len() == DIGIT_CLASSES,
            forall|i: int|
                0 <= i < samples@.len() ==> (#[trigger] samples@[i])@.label < DIGIT_CLASSES,
            forall|digit: int|
                0 <= digit < DIGIT_CLASSES ==> #[trigger] counts@[digit] == occurrences(
                    views.take(seen as int),
                    digit as u8,
                ) && counts@[digit] <= seen,
        decreases samples@.len() - seen,
    {
        let digit: u8 = samples[seen].label().digit();
        let count: usize = counts[digit as usize];
        counts.set(digit as usize, count + 1);
        proof {
            let before = views.take(seen as int);
            let after = views.take(seen + 1);
            assert(after.drop_last() =~= before);
            assert forall|other: int| 0 <= other < DIGIT_CLASSES implies #[trigger] counts@[other]
                == occurrences(after, other as u8) && counts@[other] <= seen + 1 by {
                reveal_with_fuel(Seq::filter, 2);
            }
        }
        seen += 1;
    }
    assert(views.take(seen as int) =~= views);
    counts
}

/// A stream that does not start with the images' magic number is refused
/// with `MagicNotFound`, which carries the number found, the number
/// expected and the kind `Image`, whatever the label stream holds.
pub proof fn lemma_wrong_image_magic_refused(images: Seq<u8>, labels: Seq<u8>)
    requires
        images.len() >= 4,
        be_u32(images.take(4)) != IMAGES_MAGIC,
    ensures
        open_dataset(images, labels) == Err::<DatasetView, ErrorKind>(
            ErrorKind::MagicNotFound {
                found: be_u32(images.take(4)),
                expected: IMAGES_MAGIC,
                kind: DataKind::Image,
            },
        ),
{
}

/// Behind a good image stream magic number, a label stream that does not
/// start with the labels' magic number is refused with `MagicNotFound` of
/// the kind `Label`.
pub proof fn lemma_wrong_label_magic_refused(images: Seq<u8>, labels: Seq<u8>)
    requires
        images.len() >= 4,
        be_u32(images.take(4)) == IMAGES_MAGIC,
        labels.len() >= 4,
        be_u32(labels.take(4)) != LABELS_MAGIC,
    ensures
        open_dataset(images, labels) == Err::<DatasetView, ErrorKind>(
            ErrorKind::MagicNotFound {
                found: be_u32(labels.take(4)),
                expected: LABELS_MAGIC,
                kind: DataKind::Label,
            },
        ),
{
}

/// Two streams with good magic numbers and whole headers that declare
/// different item counts are refused with `InvalidLabelCount`, which
/// carries both counts.
pub proof fn lemma_unequal_counts_refused(images: Seq<u8>, labels: Seq<u8>)
    requires
        images.len() >= IMAGES_HEADER_LEN,
        labels.len() >= LABELS_HEADER_LEN,
        be_u32(images.take(4)) == IMAGES_MAGIC,
        be_u32(labels.take(4)) == LABELS_MAGIC,
        be_u32(images.subrange(4, 8)) != be_u32(labels.subrange(4, 8)),
    ensures
        open_dataset(images, labels) == Err::<DatasetView, ErrorKind>(
            ErrorKind::InvalidLabelCount {
                sample_count: be_u32(images.subrange(4, 8)),
                label_count: be_u32(labels.subrange(4, 8)),
            },
        ),
{
}

/// A dataset is opened if and only if both streams start with their magic
/// number, hold their whole header, and declare the same item count. It
/// then stands before its first sample.
pub proof fn lemma_opened_iff_headers_agree(images: Seq<u8>, labels: Seq<u8>)
    ensures
        open_dataset(images, labels) is Ok <==> {
            &&& images.len() >= IMAGES_HEADER_LEN
            &&& labels.len() >= LABELS_HEADER_LEN
            &&& be_u32(images.take(4)) == IMAGES_MAGIC
            &&& be_u32(labels.take(4)) == LABELS_MAGIC
            &&& be_u32(images.subrange(4, 8)) == be_u32(labels.subrange(4, 8))
        },
        open_dataset(images, labels) matches Ok(dataset) ==> dataset.read == 0,
{
}

/// `next` hands out exactly the items of `pull` and nothing where `pull`
/// gives an error or the end; and `pull` gives an error exactly where the
/// sequence ends before the declared count.
pub proof fn lemma_next_swallows_errors(dataset: DatasetView)
    ensures
        dataset.next_sample() == match dataset.next_pulled() {
            Pulled::Item(sample) => Some(sample),
            Pulled::Error(_) => None::<SampleView>,
            Pulled::Done => None::<SampleView>,
        },
        dataset.next_pulled() is Error <==> dataset.next_sample() is None && dataset.read
            < dataset.size,
        dataset.next_pulled() is Done <==> dataset.read >= dataset.size,
{
}

/// A pull hands out a sample if and only if it raises the number of
/// samples handed out, and then by exactly one; the declared count and the
/// geometry never change.
pub proof fn lemma_pull_counts_one(dataset: DatasetView)
    ensures
        dataset.next_sample() is Some ==> dataset.after_next().read == dataset.read + 1,
        dataset.next_sample() is None ==> dataset.after_next().read == dataset.read,
        dataset.after_next().size == dataset.size,
        dataset.after_next().image_size == dataset.image_size,
{
}

/// The number of samples handed out never passes the declared count.
pub proof fn lemma_read_stays_within_size(dataset: DatasetView)
    requires
        dataset.read <= dataset.size,
    ensures
        dataset.after_next().read <= dataset.size,
{
}

/// The end of the sequence is permanent: after a pull that hands out
/// nothing, no later pull hands out anything.
pub proof fn lemma_end_is_permanent(dataset: DatasetView)
    requires
        dataset.next_sample() is None,
    ensures
        dataset.after_next().next_sample() is None,
{
}

/// The samples that pulling hands out are those at the same position of
/// the two streams, in stream order, and there are as many as the limit,
/// the declared count and the two streams allow: the sample at a position
/// is handed out if and only if the pulls reach it.
pub proof fn lemma_samples_by_position(dataset: DatasetView, limit: nat, index: nat)
    ensures
        index < dataset.samples(limit).len() <==> dataset.reaches(limit, index),
        index < dataset.samples(limit).len() ==> dataset.samples(limit)[index as int]
            == dataset.sample_at(index),
    decreases limit,
{
    let area = dataset.image_size.pixel_count();
    assert((index + 1) * area == index * area + area) by (nonlinear_arith);
    if limit > 0 && dataset.next_sample() is Some && index > 0 {
        let rest = dataset.after_next();
        let before: nat = (index - 1) as nat;
        lemma_samples_by_position(rest, (limit - 1) as nat, before);
        assert(before * area + area == index * area) by (nonlinear_arith)
            requires
                before + 1 == index,
        ;
        if index < dataset.samples(limit).len() {
            assert(rest.images.subrange((before * area) as int, ((before + 1) * area) as int)
                == dataset.images.subrange((index * area) as int, ((index + 1) * area) as int));
        }
    }
}

/// Pulling in two batches hands out the same samples as pulling once: the
/// sequence goes forward only and is never started again. The dataset is
/// left in the same place too, as long as the first batch came out whole;
/// a first batch that met the end has made the last pull of both ways.
pub proof fn lemma_samples_in_batches(dataset: DatasetView, first: nat, second: nat)
    ensures
        dataset.samples(first + second) == dataset.samples(first) + dataset.after_samples(
            first,
        ).samples(second),
        dataset.samples(first).len() == first ==> dataset.after_samples(first + second)
            == dataset.after_samples(first).after_samples(second),
        dataset.samples(first).len() < first ==> dataset.after_samples(first + second)
            == dataset.after_samples(first),
    decreases first,
{
    if first > 0 {
        if dataset.next_sample() is Some {
            let rest = dataset.after_next();
            lemma_samples_in_batches(rest, (first - 1) as nat, second);
            assert(dataset.samples(first + second) == seq![dataset.next_sample()->Some_0]
                + rest.samples((first + second - 1) as nat));
        } else {
            lemma_end_is_permanent(dataset);
        }
    }
}

/// However many pulls are made, they hand out no more samples than were
/// asked for, and no more than the headers declared.
pub proof fn lemma_samples_bounded(dataset: DatasetView, limit: nat)
    requires
        dataset.read <= dataset.size,
    ensures
        dataset.samples(limit).len() <= limit,
        dataset.samples(limit).len() <= dataset.size - dataset.read,
        dataset.after_samples(limit).read == dataset.read + dataset.samples(limit).len(),
    decreases limit,
{
    if limit > 0 && dataset.next_sample() is Some {
        lemma_samples_bounded(dataset.after_next(), (limit - 1) as nat);
    }
}

} // verus!
