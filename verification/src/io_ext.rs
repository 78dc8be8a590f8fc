//! Records decoded one at a time from a stream of bytes.

use typed_io::TypedRead;
use vstd::prelude::*;
use vstd::slice::{slice_subrange, slice_to_vec};

verus! {

/// `std::io::Error`, of which nothing is known here but that a read can
/// end with one.
#[verifier::external_type_specification]
#[verifier::external_body]
pub struct ExIoError(std::io::Error);

/// The integer that four bytes spell in big-endian order, the most
/// significant byte first.
pub open spec fn be_u32(bytes: Seq<u8>) -> u32
    recommends
        bytes.len() == 4,
{
    (bytes[0] * 0x100_0000 + bytes[1] * 0x1_0000 + bytes[2] * 0x100 + bytes[3]) as u32
}

/// `typed_io::TypedRead::read_be::<u32>` on a slice of bytes. The call fills
/// a four-byte buffer from the front of the slice and hands it to
/// `u32::from_be_bytes`: with four bytes or more it returns the integer
/// that the first four spell in big-endian order, with fewer it fails.
#[verifier::external_body]
fn typed_read_be_u32(bytes: &[u8]) -> (read: Result<u32, std::io::Error>)
    ensures
        bytes@.len() >= 4 ==> read is Ok && read->Ok_0 == be_u32(bytes@.take(4)),
        bytes@.len() < 4 ==> read is Err,
{
    let mut source: &[u8] = bytes;
    source.read_be::<u32>()
}

/// `typed_io::TypedRead::read_ne::<u8>` on a slice of bytes. The call fills
/// a one-byte buffer from the front of the slice: with a byte or more it
/// returns the first, with none it fails.
#[verifier::external_body]
fn typed_read_ne_u8(bytes: &[u8]) -> (read: Result<u8, std::io::Error>)
    ensures
        bytes@.len() >= 1 ==> read is Ok && read->Ok_0 == bytes@[0],
        bytes@.len() < 1 ==> read is Err,
{
    let mut source: &[u8] = bytes;
    source.read_ne::<u8>()
}

/// Why a read failed. The bytes are held in memory, so the one way for a
/// read to fail is to ask for more than is left.
#[derive(Copy, Clone, Debug, PartialEq, Eq, Structural)]
pub enum ReadError {
    /// The source ended before the record did.
    UnexpectedEof,
}

/// What is left of `unread` after an attempt to read `count` bytes: the
/// bytes behind those read, or nothing where the source was too short. A
/// failed read uses up the source.
pub open spec fn after_read(unread: Seq<u8>, count: nat) -> Seq<u8> {
    if count <= unread.len() {
        unread.skip(count as int)
    } else {
        Seq::empty()
    }
}

/// A source of bytes held in memory, read from front to back. Its view is
/// the bytes not read yet.
pub struct ByteReader {
    bytes: Vec<u8>,
    pos: usize,
}

impl View for ByteReader {
    type V = Seq<u8>;

    closed spec fn view(&self) -> Seq<u8> {
        if self.pos <= self.bytes@.len() {
            self.bytes@.skip(self.pos as int)
        } else {
            Seq::empty()
        }
    }
}

impl ByteReader {
    #[verifier::type_invariant]
    spec fn well_formed(self) -> bool {
        self.pos <= self.bytes@.len()
    }

    /// No reader holds more bytes than a `usize` can count.
    pub proof fn lemma_len_fits_usize(&self)
        ensures
            self@.len() <= usize::MAX,
    {
        assert(self.bytes.len() == self.bytes@.len());
    }

    /// A reader at the front of `bytes`.
    pub fn new(bytes: Vec<u8>) -> (reader: ByteReader)
        ensures
            reader@ == bytes@,
    {
        ByteReader { bytes, pos: 0 }
    }

    /// The number of bytes not read yet.
    pub fn remaining(&self) -> (count: usize)
        ensures
            count == self@.len(),
    {
        proof {
            use_type_invariant(self);
        }
        self.bytes.len() - self.pos
    }

    /// Gives up on the source: nothing is left to read.
    pub fn skip_to_end(&mut self)
        ensures
            final(self)@ == Seq::<u8>::empty(),
    {
        self.pos = self.bytes.len();
    }

    /// Reads exactly `count` bytes, or fails and uses up the source where
    /// fewer are left.
    pub fn read_exact(&mut self, count: usize) -> (read: Result<Vec<u8>, ReadError>)
        ensures
            final(self)@ == after_read(old(self)@, count as nat),
            count <= old(self)@.len() ==> read is Ok && read->Ok_0@ == old(self)@.take(
                count as int,
            ),
            count > old(self)@.len() ==> read == Err::<Vec<u8>, ReadError>(
                ReadError::UnexpectedEof,
            ),
    {
        proof {
            use_type_invariant(&*self);
        }
        let len: usize = self.bytes.len();
        if count <= len - self.pos {
            let end: usize = self.pos + count;
            let block = slice_to_vec(slice_subrange(self.bytes.as_slice(), self.pos, end));
            self.pos = end;
            Ok(block)
        } else {
            self.pos = len;
            Err(ReadError::UnexpectedEof)
        }
    }

    /// Reads four bytes as a big-endian unsigned integer.
    pub fn read_be_u32(&mut self) -> (read: Result<u32, ReadError>)
        ensures
            final(self)@ == after_read(old(self)@, 4),
            old(self)@.len() >= 4 ==> read == Ok::<u32, ReadError>(be_u32(old(self)@.take(4))),
            old(self)@.len() < 4 ==> read == Err::<u32, ReadError>(ReadError::UnexpectedEof),
    {
        proof {
            use_type_invariant(&*self);
        }
        let len: usize = self.bytes.len();
        let unread = slice_subrange(self.bytes.as_slice(), self.pos, len);
        match typed_read_be_u32(unread) {
            Ok(value) => {
                self.pos = self.pos + 4;
                Ok(value)
            },
            Err(_) => {
                self.pos = len;
                Err(ReadError::UnexpectedEof)
            },
        }
    }

    /// Reads one byte.
    pub fn read_u8(&mut self) -> (read: Result<u8, ReadError>)
        ensures
            final(self)@ == after_read(old(self)@, 1),
            old(self)@.len() >= 1 ==> read == Ok::<u8, ReadError>(old(self)@[0]),
            old(self)@.len() < 1 ==> read == Err::<u8, ReadError>(ReadError::UnexpectedEof),
    {
        proof {
            use_type_invariant(&*self);
        }
        let len: usize = self.bytes.len();
        let unread = slice_subrange(self.bytes.as_slice(), self.pos, len);
        match typed_read_ne_u8(unread) {
            Ok(value) => {
                self.pos = self.pos + 1;
                Ok(value)
            },
            Err(_) => {
                self.pos = len;
                Err(ReadError::UnexpectedEof)
            },
        }
    }
}

/// A record with a byte layout that is fixed, or follows from a
/// configuration value: how many bytes it takes and what they mean. Every
/// sequence of bytes of the right length is a record, so that reading one
/// fails only where the source ends early.
pub trait ReadFromBytes: Sized + View {
    /// What the layout depends on; `()` where it depends on nothing.
    type Config;

    /// The number of bytes that one record takes under `config`.
    spec fn encoded_len(config: &Self::Config) -> nat;

    /// The record that `bytes` spell under `config`, for `bytes` of the
    /// length that `encoded_len` gives.
    spec fn decode(bytes: Seq<u8>, config: &Self::Config) -> Self::V;

    /// Decodes one record from the front of `input`. It succeeds if and
    /// only if `input` holds the bytes of a whole record, and then takes
    /// exactly those; a failed read uses up `input`.
    fn read_from_bytes(input: &mut ByteReader, config: &Self::Config) -> (read: Result<
        Self,
        ReadError,
    >)
        ensures
            final(input)@ == after_read(old(input)@, Self::encoded_len(config)),
            match read {
                Ok(record) => Self::encoded_len(config) <= old(input)@.len() && record@
                    == Self::decode(old(input)@.take(Self::encoded_len(config) as int), config),
                Err(error) => Self::encoded_len(config) > old(input)@.len() && error
                    == ReadError::UnexpectedEof,
            },
    ;
}

/// The record at the front of `unread`, or `None` where `unread` is too
/// short to hold one.
pub open spec fn front_record<T: ReadFromBytes>(unread: Seq<u8>, config: &T::Config) -> Option<
    T::V,
> {
    if T::encoded_len(config) <= unread.len() {
        Some(T::decode(unread.take(T::encoded_len(config) as int), config))
    } else {
        None
    }
}

/// Whether `read` is what decoding one record from the front of `unread`
/// gives: the record at the front, or `UnexpectedEof` where there is none.
pub open spec fn read_outcome<T: ReadFromBytes>(
    unread: Seq<u8>,
    config: &T::Config,
    read: Result<T, ReadError>,
) -> bool {
    match read {
        Ok(record) => front_record::<T>(unread, config) == Some(record@),
        Err(error) => front_record::<T>(unread, config) is None && error
            == ReadError::UnexpectedEof,
    }
}

/// A read that succeeds takes exactly the bytes of one record and leaves
/// the rest; a read that fails leaves nothing.
pub proof fn lemma_read_takes_one_record<T: ReadFromBytes>(unread: Seq<u8>, config: &T::Config)
    ensures
        front_record::<T>(unread, config) is Some ==> T::encoded_len(config) + after_read(
            unread,
            T::encoded_len(config),
        ).len() == unread.len(),
        front_record::<T>(unread, config) is Some ==> unread.take(T::encoded_len(config) as int)
            + after_read(unread, T::encoded_len(config)) == unread,
        front_record::<T>(unread, config) is None ==> after_read(unread, T::encoded_len(config))
            == Seq::<u8>::empty(),
{
}

/// The end of a sequence of records is permanent: once a read has failed,
/// every later read under the same configuration fails too.
pub proof fn lemma_end_is_permanent<T: ReadFromBytes>(unread: Seq<u8>, config: &T::Config)
    requires
        front_record::<T>(unread, config) is None,
    ensures
        front_record::<T>(after_read(unread, T::encoded_len(config)), config) is None,
{
}

/// A source from which records of any type can be decoded, one at a time.
pub trait ReadData: Sized + View<V = Seq<u8>> {
    /// Decodes one record of type `T` from the front of the source.
    fn read_data<T: ReadFromBytes>(&mut self, config: &T::Config) -> (read: Result<T, ReadError>)
        ensures
            final(self)@ == after_read(old(self)@, T::encoded_len(config)),
            read_outcome::<T>(old(self)@, config, read),
    ;
}

impl ReadData for ByteReader {
    fn read_data<T: ReadFromBytes>(&mut self, config: &T::Config) -> (read: Result<T, ReadError>) {
        T::read_from_bytes(self, config)
    }
}

/// Whether a sequence of decoded records goes on after `item`: it stops at
/// the first failed read.
pub fn stop_on_io_error<T>(item: &Result<T, ReadError>) -> (goes_on: bool)
    ensures
        goes_on == (item is Ok),
{
    item.is_ok()
}

/// What one pull at a sequence gives: an item, the error that ended the
/// sequence early, or the clean end.
#[derive(Debug, PartialEq)]
pub enum Pulled<T, E> {
    Item(T),
    Error(E),
    Done,
}

/// The records of one type that a source holds, decoded on demand from
/// front to back under one configuration.
pub struct DataIter<T: ReadFromBytes> {
    input: ByteReader,
    config: T::Config,
}

impl<T: ReadFromBytes> DataIter<T> {
    /// The bytes not decoded yet.
    pub closed spec fn unread(&self) -> Seq<u8> {
        self.input@
    }

    /// The configuration under which every record is decoded.
    pub closed spec fn config(&self) -> T::Config {
        self.config
    }

    /// The next record, or `None` once the source holds no whole record. A
    /// failed read ends the sequence and is not handed out: `Some(Err(_))`
    /// is never returned.
    pub fn next(&mut self) -> (item: Option<Result<T, ReadError>>)
        ensures
            final(self).config() == old(self).config(),
            final(self).unread() == after_read(
                old(self).unread(),
                T::encoded_len(&old(self).config()),
            ),
            match item {
                Some(Ok(record)) => front_record::<T>(old(self).unread(), &old(self).config())
                    == Some(record@),
                Some(Err(_)) => false,
                None => front_record::<T>(old(self).unread(), &old(self).config()) is None,
            },
    {
        let item = self.input.read_data::<T>(&self.config);
        if !stop_on_io_error(&item) {
            None
        } else {
            Some(item)
        }
    }

    /// The next record like `next`, but telling the two ends apart: `Done`
    /// where the source was read to its last byte, `Error` where it ends
    /// inside a record.
    pub fn pull(&mut self) -> (pulled: Pulled<T, ReadError>)
        ensures
            final(self).config() == old(self).config(),
            final(self).unread() == after_read(
                old(self).unread(),
                T::encoded_len(&old(self).config()),
            ),
            match pulled {
                Pulled::Item(record) => front_record::<T>(old(self).unread(), &old(self).config())
                    == Some(record@),
                Pulled::Error(error) => front_record::<T>(
                    old(self).unread(),
                    &old(self).config(),
                ) is None && old(self).unread().len() > 0 && error == ReadError::UnexpectedEof,
                Pulled::Done => front_record::<T>(old(self).unread(), &old(self).config())
                    is None && old(self).unread().len() == 0,
            },
    {
        let at_end: bool = self.input.remaining() == 0;
        match self.input.read_data::<T>(&self.config) {
            Ok(record) => Pulled::Item(record),
            Err(error) => if at_end {
                Pulled::Done
            } else {
                Pulled::Error(error)
            },
        }
    }
}

/// A source that can be turned into the sequence of the records it holds.
pub trait IntoDataIter<T: ReadFromBytes>: Sized + View<V = Seq<u8>> {
    /// The records of type `T` in this source, decoded under `config`.
    fn data_iter(self, config: T::Config) -> (iter: DataIter<T>)
        ensures
            iter.unread() == self@,
            iter.config() == config,
    ;
}

impl<T: ReadFromBytes> IntoDataIter<T> for ByteReader {
    fn data_iter(self, config: T::Config) -> (iter: DataIter<T>) {
        DataIter { input: self, config }
    }
}

} // verus!
