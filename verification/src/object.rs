//! Stored objects and their byte format.
//!
//! An object is kept as `<type> SPACE <decimal size> NUL <payload>`, the
//! whole of it packed as a zlib stream.

use crate::error::{Error, ErrorModel, ObjectFault, ObjectFaultModel};
use vstd::prelude::*;
use vstd::slice::slice_to_vec;

verus! {

/// One object of the store.
#[derive(Clone, Debug, PartialEq, Eq)]
pub enum GitObject {
    /// The contents of a file.
    GitBlob { data: Vec<u8> },
}

/// The mathematical value of a [`GitObject`].
pub enum GitObjectModel {
    GitBlob { data: Seq<u8> },
}

impl View for GitObject {
    type V = GitObjectModel;

    open spec fn view(&self) -> GitObjectModel {
        match self {
            GitObject::GitBlob { data } => GitObjectModel::GitBlob { data: data@ },
        }
    }
}

impl GitObjectModel {
    /// The type tag that the header of the object carries.
    pub open spec fn type_tag(self) -> Seq<u8> {
        match self {
            GitObjectModel::GitBlob { .. } => blob_tag(),
        }
    }

    /// The bytes that follow the header.
    pub open spec fn payload(self) -> Seq<u8> {
        match self {
            GitObjectModel::GitBlob { data } => data,
        }
    }
}

/// The bytes of the tag `blob`.
pub open spec fn blob_tag() -> Seq<u8> {
    seq![98u8, 108u8, 111u8, 98u8]
}

pub open spec fn is_digit(byte: u8) -> bool {
    48 <= byte <= 57
}

pub open spec fn all_digits(field: Seq<u8>) -> bool {
    forall|i: int| 0 <= i < field.len() ==> is_digit(#[trigger] field[i])
}

/// The number that a string of decimal digits denotes.
pub open spec fn decimal_value(digits: Seq<u8>) -> nat
    decreases digits.len(),
{
    if digits.len() == 0 {
        0
    } else {
        decimal_value(digits.drop_last()) * 10 + if is_digit(digits.last()) {
            (digits.last() - 48) as nat
        } else {
            0
        }
    }
}

/// The size that a header field announces: one or more decimal digits and
/// nothing else, denoting a number that fits the machine.
pub open spec fn parse_size(field: Seq<u8>) -> Option<nat> {
    if field.len() > 0 && all_digits(field) && decimal_value(field) <= usize::MAX {
        Some(decimal_value(field))
    } else {
        None
    }
}

/// The decimal digits of `n`, without leading zeros.
pub open spec fn decimal(n: nat) -> Seq<u8>
    decreases n,
{
    if n < 10 {
        seq![(48 + n) as u8]
    } else {
        decimal(n / 10).push((48 + n % 10) as u8)
    }
}

/// The index of the first `byte` in `bytes` at or after `from`.
pub open spec fn position_from(bytes: Seq<u8>, byte: u8, from: int) -> Option<int>
    decreases bytes.len() - from,
{
    if from < 0 || from >= bytes.len() {
        None
    } else if bytes[from] == byte {
        Some(from)
    } else {
        position_from(bytes, byte, from + 1)
    }
}

/// The framed form of an object with the given tag and payload.
pub open spec fn frame(tag: Seq<u8>, payload: Seq<u8>) -> Seq<u8> {
    tag + seq![32u8] + decimal(payload.len()) + seq![0u8] + payload
}

/// The framed form of an object.
pub open spec fn encode(object: GitObjectModel) -> Seq<u8> {
    frame(object.type_tag(), object.payload())
}

/// The header of a framed object.
#[derive(Clone, Debug, PartialEq, Eq)]
pub struct ObjectHeader {
    /// The bytes of the type tag.
    pub type_tag: Vec<u8>,
    /// The number of payload bytes that the header announces.
    pub declared_size: usize,
    /// The index of the first payload byte: the one after the NUL.
    pub payload_start: usize,
}

/// The mathematical value of an [`ObjectHeader`].
pub struct ObjectHeaderModel {
    pub type_tag: Seq<u8>,
    pub declared_size: nat,
    pub payload_start: nat,
}

impl View for ObjectHeader {
    type V = ObjectHeaderModel;

    open spec fn view(&self) -> ObjectHeaderModel {
        ObjectHeaderModel {
            type_tag: self.type_tag@,
            declared_size: self.declared_size as nat,
            payload_start: self.payload_start as nat,
        }
    }
}

/// The header of framed bytes.
///
/// The tag ends at the first space and the size field at the first NUL
/// after it. The size must be the exact number of bytes that follow the NUL.
pub open spec fn header(raw: Seq<u8>) -> Result<ObjectHeaderModel, ObjectFaultModel> {
    match position_from(raw, 32, 0) {
        None => Err(ObjectFaultModel::MissingSpace),
        Some(space) => match position_from(raw, 0, space + 1) {
            None => Err(ObjectFaultModel::MissingNul),
            Some(nul) => {
                let field = raw.subrange(space + 1, nul);
                let actual = (raw.len() - nul - 1) as nat;
                match parse_size(field) {
                    None => Err(ObjectFaultModel::InvalidSize { text: utf8_lossy(field) }),
                    Some(declared) => if declared == actual {
                        Ok(
                            ObjectHeaderModel {
                                type_tag: raw.subrange(0, space),
                                declared_size: declared,
                                payload_start: (nul + 1) as nat,
                            },
                        )
                    } else {
                        Err(ObjectFaultModel::SizeMismatch { declared, actual })
                    },
                }
            },
        },
    }
}

/// The object that framed bytes hold.
///
/// The tag is compared byte for byte. A tag other than `blob` is refused
/// and reported as text, whatever bytes it is made of.
pub open spec fn decode(raw: Seq<u8>) -> Result<GitObjectModel, ErrorModel> {
    match header(raw) {
        Err(fault) => Err(ErrorModel::GitObjectError { fault }),
        Ok(found) => if found.type_tag == blob_tag() {
            Ok(GitObjectModel::GitBlob { data: raw.skip(found.payload_start as int) })
        } else {
            Err(ErrorModel::ObjectUnsupported { object_type: utf8_lossy(found.type_tag) })
        },
    }
}

/// The object that the zlib stream read from `path` holds.
pub open spec fn unpacked(path: Seq<char>, stream: Seq<u8>) -> Result<
    GitObjectModel,
    ErrorModel,
> {
    match zlib_inflate(stream) {
        Err(diagnostic) => Err(
            ErrorModel::GitObjectError { fault: ObjectFaultModel::Inflate { path, diagnostic } },
        ),
        Ok(raw) => decode(raw),
    }
}

/// What `miniz_oxide::inflate::decompress_to_vec_zlib` gives for a stream:
/// the bytes it unpacks to, or the text of the error it reports.
pub uninterp spec fn zlib_inflate(stream: Seq<u8>) -> Result<Seq<u8>, Seq<char>>;

/// What `miniz_oxide::deflate::compress_to_vec_zlib` gives for the bytes at
/// a compression level.
pub uninterp spec fn zlib_deflate(bytes: Seq<u8>, level: u8) -> Seq<u8>;

/// What `String::from_utf8_lossy` gives for the bytes.
pub uninterp spec fn utf8_lossy(bytes: Seq<u8>) -> Seq<char>;

/// Calls `miniz_oxide::inflate::decompress_to_vec_zlib`. The result is
/// taken to depend on the stream alone; an error is handed on as the text
/// that the codec displays for it.
#[verifier::external_body]
fn inflate(stream: &[u8]) -> (unpacked: Result<Vec<u8>, String>)
    ensures
        match unpacked {
            Ok(bytes) => zlib_inflate(stream@) == Ok::<Seq<u8>, Seq<char>>(bytes@),
            Err(why) => zlib_inflate(stream@) == Err::<Seq<u8>, Seq<char>>(why@),
        },
{
    miniz_oxide::inflate::decompress_to_vec_zlib(stream).map_err(|e| e.to_string())
}

/// Calls `miniz_oxide::deflate::compress_to_vec_zlib`. The result is taken
/// to depend on the bytes and the level alone.
#[verifier::external_body]
fn deflate(bytes: &[u8], level: u8) -> (packed: Vec<u8>)
    ensures
        packed@ == zlib_deflate(bytes@, level),
{
    miniz_oxide::deflate::compress_to_vec_zlib(bytes, level)
}

/// Calls `String::from_utf8_lossy`, which decodes UTF-8 and puts U+FFFD in
/// place of what is not. The result depends on the bytes alone.
#[verifier::external_body]
fn lossy_text(bytes: &[u8]) -> (text: String)
    ensures
        text@ == utf8_lossy(bytes@),
{
    String::from_utf8_lossy(bytes).into_owned()
}

/// Finds the first `byte` at or after `from`.
fn find_byte(bytes: &[u8], byte: u8, from: usize) -> (found: Option<usize>)
    ensures
        match found {
            Some(i) => from <= i < bytes.len() && position_from(bytes@, byte, from as int) == Some(
                i as int,
            ),
            None => position_from(bytes@, byte, from as int) is None,
        },
{
    let mut i: usize = from;
    while i < bytes.len()
        invariant
            from <= i,
            position_from(bytes@, byte, from as int) == position_from(bytes@, byte, i as int),
        decreases bytes.len() - i,
    {
        if bytes[i] == byte {
            return Some(i);
        }
        i += 1;
    }
    None
}

proof fn lemma_value_of_prefix(digits: Seq<u8>, k: int)
    requires
        0 <= k <= digits.len(),
    ensures
        decimal_value(digits.take(k)) <= decimal_value(digits),
    decreases digits.len(),
{
    if k == digits.len() {
        assert(digits.take(k) =~= digits);
    } else {
        assert(digits.drop_last().take(k) =~= digits.take(k));
        lemma_value_of_prefix(digits.drop_last(), k);
    }
}

/// Reads a size field.
fn parse_decimal(field: &[u8]) -> (size: Option<usize>)
    ensures
        match size {
            Some(n) => parse_size(field@) == Some(n as nat),
            None => parse_size(field@) is None,
        },
{
    if field.len() == 0 {
        return None;
    }
    let mut value: usize = 0;
    let mut i: usize = 0;
    while i < field.len()
        invariant
            i <= field.len(),
            all_digits(field@.take(i as int)),
            value == decimal_value(field@.take(i as int)),
        decreases field.len() - i,
    {
        let byte: u8 = field[i];
        if byte < 48 || byte > 57 {
            return None;
        }
        proof {
            let next = field@.take(i + 1);
            assert(next.drop_last() =~= field@.take(i as int));
            assert(next.last() == byte);
            lemma_value_of_prefix(field@, i + 1);
        }
        let digit: usize = (byte - 48) as usize;
        let shifted: usize = match value.checked_mul(10) {
            Some(shifted) => shifted,
            None => {
                return None;
            },
        };
        value = match shifted.checked_add(digit) {
            Some(sum) => sum,
            None => {
                return None;
            },
        };
        i += 1;
    }
    assert(field@.take(i as int) =~= field@);
    Some(value)
}

/// Writes a size as decimal digits.
fn render_decimal(n: usize) -> (digits: Vec<u8>)
    ensures
        digits@ == decimal(n as nat),
    decreases n,
{
    if n < 10 {
        let mut digits: Vec<u8> = Vec::new();
        digits.push(48 + n as u8);
        assert(digits@ =~= decimal(n as nat));
        digits
    } else {
        let mut digits = render_decimal(n / 10);
        digits.push(48 + (n % 10) as u8);
        digits
    }
}

/// Whether `tag` is the tag `blob`.
fn is_blob_tag(tag: &[u8]) -> (yes: bool)
    ensures
        yes == (tag@ == blob_tag()),
{
    let yes = tag.len() == 4 && tag[0] == 98 && tag[1] == 108 && tag[2] == 111 && tag[3] == 98;
    proof {
        if yes {
            assert(tag@ =~= blob_tag());
        } else if tag@ == blob_tag() {
            assert(blob_tag().len() == 4);
            assert(blob_tag()[0] == 98 && blob_tag()[1] == 108 && blob_tag()[2] == 111
                && blob_tag()[3] == 98);
        }
    }
    yes
}

impl ObjectHeader {
    /// Reads the header of framed bytes.
    pub fn parse(raw: &[u8]) -> (found: Result<ObjectHeader, ObjectFault>)
        ensures
            match found {
                Ok(read) => header(raw@) == Ok::<ObjectHeaderModel, ObjectFaultModel>(read@)
                    && read.payload_start + read.declared_size == raw@.len(),
                Err(fault) => header(raw@) == Err::<ObjectHeaderModel, ObjectFaultModel>(fault@),
            },
    {
        let space: usize = match find_byte(raw, 32, 0) {
            Some(space) => space,
            None => {
                return Err(ObjectFault::MissingSpace);
            },
        };
        let nul: usize = match find_byte(raw, 0, space + 1) {
            Some(nul) => nul,
            None => {
                return Err(ObjectFault::MissingNul);
            },
        };
        let field = &raw[space + 1..nul];
        let actual: usize = raw.len() - nul - 1;
        let declared: usize = match parse_decimal(field) {
            Some(declared) => declared,
            None => {
                return Err(ObjectFault::InvalidSize { text: lossy_text(field) });
            },
        };
        if declared != actual {
            return Err(ObjectFault::SizeMismatch { declared, actual });
        }
        Ok(
            ObjectHeader {
                type_tag: slice_to_vec(&raw[0..space]),
                declared_size: declared,
                payload_start: nul + 1,
            },
        )
    }

    /// The type tag as text. Bytes that are not UTF-8 are put up with and
    /// shown as U+FFFD.
    pub fn tag_text(&self) -> (name: String)
        ensures
            name@ == utf8_lossy(self.type_tag@),
    {
        lossy_text(self.type_tag.as_slice())
    }
}

impl GitObject {
    /// The framed bytes of the object, as they stand in the store before
    /// packing.
    pub fn serialize(&self) -> (framed: Vec<u8>)
        ensures
            framed@ == encode(self@),
    {
        match self {
            GitObject::GitBlob { data } => {
                let mut framed: Vec<u8> = Vec::new();
                framed.push(98);
                framed.push(108);
                framed.push(111);
                framed.push(98);
                framed.push(32);
                let mut digits = render_decimal(data.len());
                framed.append(&mut digits);
                framed.push(0);
                let mut payload = data.clone();
                framed.append(&mut payload);
                assert(framed@ =~= encode(self@));
                framed
            },
        }
    }

    /// Reads an object from its framed bytes.
    pub fn deserialize(raw: &[u8]) -> (object: Result<GitObject, Error>)
        ensures
            match object {
                Ok(found) => decode(raw@) == Ok::<GitObjectModel, ErrorModel>(found@),
                Err(error) => decode(raw@) == Err::<GitObjectModel, ErrorModel>(error@),
            },
    {
        let found = match ObjectHeader::parse(raw) {
            Ok(found) => found,
            Err(fault) => {
                return Err(Error::GitObjectError { fault });
            },
        };
        if is_blob_tag(found.type_tag.as_slice()) {
            let payload = &raw[found.payload_start..raw.len()];
            assert(payload@ =~= raw@.skip(found.payload_start as int));
            Ok(GitObject::GitBlob { data: slice_to_vec(payload) })
        } else {
            Err(Error::ObjectUnsupported { object_type: found.tag_text() })
        }
    }

    /// Unpacks the zlib stream that was read from `path` and reads the
    /// object in it.
    pub fn unpack(path: &str, stream: &[u8]) -> (object: Result<GitObject, Error>)
        ensures
            match object {
                Ok(found) => unpacked(path@, stream@) == Ok::<GitObjectModel, ErrorModel>(found@),
                Err(error) => unpacked(path@, stream@) == Err::<GitObjectModel, ErrorModel>(
                    error@,
                ),
            },
    {
        match inflate(stream) {
            Ok(raw) => GitObject::deserialize(raw.as_slice()),
            Err(diagnostic) => Err(
                Error::GitObjectError {
                    fault: ObjectFault::Inflate { path: String::from_str(path), diagnostic },
                },
            ),
        }
    }

    /// The zlib stream under which the object is stored.
    pub fn pack(&self) -> (stream: Vec<u8>)
        ensures
            stream@ == zlib_deflate(encode(self@), 6),
    {
        let framed = self.serialize();
        deflate(framed.as_slice(), 6)
    }
}

/// The digits written for a number are decimal digits, at least one, and
/// denote that number.
pub proof fn lemma_decimal_denotes(n: nat)
    ensures
        decimal(n).len() >= 1,
        all_digits(decimal(n)),
        decimal_value(decimal(n)) == n,
    decreases n,
{
    if n < 10 {
        let digits = decimal(n);
        assert(digits.drop_last() =~= Seq::<u8>::empty());
        assert(decimal_value(digits.drop_last()) == 0);
    } else {
        lemma_decimal_denotes(n / 10);
        let digits = decimal(n);
        assert(digits.drop_last() =~= decimal(n / 10));
        assert(digits.last() == (48 + n % 10) as u8);
    }
}

/// A byte that stands at `at`, and nowhere from `from` up to there, is the
/// first from `from` on.
pub proof fn lemma_position_found(bytes: Seq<u8>, byte: u8, from: int, at: int)
    requires
        0 <= from <= at < bytes.len(),
        bytes[at] == byte,
        forall|i: int| from <= i < at ==> bytes[i] != byte,
    ensures
        position_from(bytes, byte, from) == Some(at),
    decreases at - from,
{
    if from < at {
        lemma_position_found(bytes, byte, from + 1, at);
    }
}

/// Where a first byte is found, it stands there and nowhere before.
pub proof fn lemma_position_is_first(bytes: Seq<u8>, byte: u8, from: int)
    requires
        0 <= from,
    ensures
        match position_from(bytes, byte, from) {
            Some(at) => from <= at < bytes.len() && bytes[at] == byte && forall|i: int|
                from <= i < at ==> bytes[i] != byte,
            None => forall|i: int| from <= i < bytes.len() ==> bytes[i] != byte,
        },
    decreases bytes.len() - from,
{
    if from < bytes.len() && bytes[from] != byte {
        lemma_position_is_first(bytes, byte, from + 1);
    }
}

/// Framing loses nothing: the framed bytes of an object decode to that
/// object.
pub proof fn lemma_decode_encode(object: GitObjectModel)
    requires
        object.payload().len() <= usize::MAX,
    ensures
        decode(encode(object)) == Ok::<GitObjectModel, ErrorModel>(object),
{
    let payload = object.payload();
    let digits = decimal(payload.len());
    let raw = encode(object);
    let nul = 5 + digits.len() as int;
    lemma_decimal_denotes(payload.len());
    assert(raw.len() == nul + 1 + payload.len());
    assert(raw[0] == 98 && raw[1] == 108 && raw[2] == 111 && raw[3] == 98 && raw[4] == 32);
    lemma_position_found(raw, 32, 0, 4);
    assert forall|i: int| 5 <= i < nul implies raw[i] != 0 by {
        assert(raw[i] == digits[i - 5]);
        assert(is_digit(digits[i - 5]));
    }
    assert(raw[nul] == 0);
    lemma_position_found(raw, 0, 5, nul);
    assert(raw.subrange(5, nul) =~= digits);
    assert(raw.subrange(0, 4) =~= blob_tag());
    assert(raw.skip(nul + 1) =~= payload);
}

/// What a header that was read says of the bytes: the space that ends the
/// tag stands before the NUL that ends the size, and the size is the number
/// of the bytes that follow the NUL.
pub proof fn lemma_header_fits(raw: Seq<u8>)
    ensures
        header(raw) matches Ok(found) ==> {
            &&& found.type_tag.len() + 2 <= found.payload_start <= raw.len()
            &&& found.type_tag == raw.take(found.type_tag.len() as int)
            &&& raw[found.type_tag.len() as int] == 32
            &&& raw[found.payload_start - 1] == 0
            &&& found.payload_start + found.declared_size == raw.len()
        },
{
    lemma_position_is_first(raw, 32, 0);
    if let Some(space) = position_from(raw, 32, 0) {
        lemma_position_is_first(raw, 0, space + 1);
        assert(raw.subrange(0, space) =~= raw.take(space));
    }
}

/// The size in the header is binding: a payload that is handed out is all
/// of the bytes after the header, as many as the header announces, none
/// dropped and none added.
pub proof fn lemma_payload_is_whole(raw: Seq<u8>)
    ensures
        decode(raw) matches Ok(object) ==> header(raw) matches Ok(found) && object.payload()
            == raw.skip(found.payload_start as int) && object.payload().len()
            == found.declared_size,
{
    lemma_header_fits(raw);
}

/// A size that is a number, but not the number of the bytes after the NUL,
/// has the object refused, with both numbers named.
pub proof fn lemma_wrong_size_is_refused(raw: Seq<u8>, space: int, nul: int, declared: nat)
    requires
        position_from(raw, 32, 0) == Some(space),
        position_from(raw, 0, space + 1) == Some(nul),
        parse_size(raw.subrange(space + 1, nul)) == Some(declared),
        declared != raw.len() - nul - 1,
    ensures
        decode(raw) == Err::<GitObjectModel, ErrorModel>(
            ErrorModel::GitObjectError {
                fault: ObjectFaultModel::SizeMismatch {
                    declared,
                    actual: (raw.len() - nul - 1) as nat,
                },
            },
        ),
{
    lemma_position_is_first(raw, 32, 0);
    lemma_position_is_first(raw, 0, space + 1);
}

} // verus!
