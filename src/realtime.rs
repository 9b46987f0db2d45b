//! The envelope of a GTFS-realtime feed: its header and its entities, each
//! entity with its id and the encoded payload messages that it carries.
use protobuf::well_known_types::empty::Empty;
use protobuf::{Message, UnknownValueRef};
use vstd::prelude::*;
use vstd::utf8::{decode_utf8, valid_utf8};

verus! {

/// The wire type of a protobuf field.
#[derive(Debug, Clone, Copy, PartialEq, Eq, Structural)]
pub enum WireKind {
    Varint,
    Fixed64,
    Fixed32,
    Bytes,
}

/// One field of an encoded message: its number, its wire type, and its
/// value, a number for the numeric kinds and bytes for `Bytes`.
#[derive(Debug)]
pub struct WireField {
    pub number: u32,
    pub kind: WireKind,
    pub value: u64,
    pub bytes: Vec<u8>,
}

pub struct WireFieldView {
    pub number: u32,
    pub kind: WireKind,
    pub value: u64,
    pub bytes: Seq<u8>,
}

impl View for WireField {
    type V = WireFieldView;

    open spec fn view(&self) -> WireFieldView {
        WireFieldView { number: self.number, kind: self.kind, value: self.value, bytes: self.bytes@ }
    }
}

pub open spec fn fields_view(fs: Seq<WireField>) -> Seq<WireFieldView> {
    fs.map_values(|f: WireField| f@)
}

/// The values that an encoded message holds under one field number and wire
/// type, in the order of the encoding: each as its number (for the numeric
/// kinds) and its bytes (for `Bytes`). `None` where the bytes are not a
/// well-formed message, whatever the number and type.
pub uninterp spec fn wire_values_of(message: Seq<u8>, number: u32, kind: WireKind) -> Option<
    Seq<(u64, Seq<u8>)>,
>;

/// The values of the fields with one number and wire type, in order.
pub open spec fn select(fs: Seq<WireFieldView>, number: u32, kind: WireKind) -> Seq<(u64, Seq<u8>)>
    decreases fs.len(),
{
    if fs.len() == 0 {
        Seq::empty()
    } else {
        let prev = select(fs.drop_last(), number, kind);
        if is_field(fs.last(), number, kind) {
            prev.push((fs.last().value, fs.last().bytes))
        } else {
            prev
        }
    }
}

/// Relies on protobuf's `Message::parse_from_bytes` for `Empty`, a message
/// without fields: it fails on malformed input and otherwise keeps every
/// field but groups (which it skips) in its `UnknownFields`, pushing each
/// value at the end of the list for its number and wire type. Their `iter`
/// walks the numbers in the order of a hash map, and within one number each
/// wire type's list in order; only that order within a list is stated.
#[verifier::external_body]
fn wire_fields(bytes: &[u8]) -> (r: Option<Vec<WireField>>)
    ensures
        match r {
            Some(v) => forall|number: u32, kind: WireKind| #[trigger]
                wire_values_of(bytes@, number, kind) == Some(select(fields_view(v@), number, kind)),
            None => forall|number: u32, kind: WireKind| #[trigger]
                wire_values_of(bytes@, number, kind) is None,
        },
{
    let message = Empty::parse_from_bytes(bytes).ok()?;
    Some(message.special_fields.unknown_fields().iter().map(|(number, v)| match v {
        UnknownValueRef::Varint(x) => WireField { number, kind: WireKind::Varint, value: x, bytes: vec![] },
        UnknownValueRef::Fixed64(x) => WireField { number, kind: WireKind::Fixed64, value: x, bytes: vec![] },
        UnknownValueRef::Fixed32(x) => WireField { number, kind: WireKind::Fixed32, value: x as u64, bytes: vec![] },
        UnknownValueRef::LengthDelimited(b) => WireField { number, kind: WireKind::Bytes, value: 0, bytes: b.to_vec() },
    }).collect())
}

/// The text that UTF-8 bytes encode; `None` where they are not UTF-8.
pub open spec fn utf8_text(bytes: Seq<u8>) -> Option<Seq<char>> {
    if valid_utf8(bytes) {
        Some(decode_utf8(bytes))
    } else {
        None
    }
}

/// Relies on `String::from_utf8`, which accepts exactly the valid UTF-8 bytes.
#[verifier::external_body]
fn utf8_string(bytes: Vec<u8>) -> (r: Option<String>)
    ensures
        match r {
            Some(s) => valid_utf8(bytes@) && s@ == decode_utf8(bytes@),
            None => !valid_utf8(bytes@),
        },
{
    String::from_utf8(bytes).ok()
}

/// The message is well formed; then the values of every number and wire
/// type can be read.
pub open spec fn well_formed(message: Seq<u8>) -> bool {
    wire_values_of(message, 1, WireKind::Bytes) is Some
}

/// The values of one number and wire type of a well-formed message.
pub open spec fn values(message: Seq<u8>, number: u32, kind: WireKind) -> Seq<(u64, Seq<u8>)> {
    match wire_values_of(message, number, kind) {
        Some(v) => v,
        None => Seq::empty(),
    }
}

/// All occurrences of an embedded message field, merged: their bytes one
/// after the other, which decodes as the merge of the occurrences.
pub open spec fn concat_values(vs: Seq<(u64, Seq<u8>)>) -> Option<Seq<u8>>
    decreases vs.len(),
{
    if vs.len() == 0 {
        None
    } else {
        match concat_values(vs.drop_last()) {
            Some(p) => Some(p + vs.last().1),
            None => Some(vs.last().1),
        }
    }
}

/// The bytes of the last occurrence, which is the one that counts.
pub open spec fn last_bytes_of(vs: Seq<(u64, Seq<u8>)>) -> Option<Seq<u8>> {
    if vs.len() == 0 {
        None
    } else {
        Some(vs.last().1)
    }
}

/// The number of the last occurrence, which is the one that counts.
pub open spec fn last_number_of(vs: Seq<(u64, Seq<u8>)>) -> Option<u64> {
    if vs.len() == 0 {
        None
    } else {
        Some(vs.last().0)
    }
}

/// The bytes of every occurrence of a repeated field, in order.
pub open spec fn bytes_of_values(vs: Seq<(u64, Seq<u8>)>) -> Seq<Seq<u8>> {
    vs.map_values(|v: (u64, Seq<u8>)| v.1)
}

proof fn lemma_select(fs: Seq<WireFieldView>, number: u32)
    ensures
        merged(fs, number) == concat_values(select(fs, number, WireKind::Bytes)),
        last_bytes(fs, number) == last_bytes_of(select(fs, number, WireKind::Bytes)),
        last_varint(fs, number) == last_number_of(select(fs, number, WireKind::Varint)),
        all_bytes(fs, number) == bytes_of_values(select(fs, number, WireKind::Bytes)),
    decreases fs.len(),
{
    if fs.len() > 0 {
        lemma_select(fs.drop_last(), number);
        let f = fs.last();
        let pb = select(fs.drop_last(), number, WireKind::Bytes);
        let x = (f.value, f.bytes);
        assert(pb.push(x).drop_last() =~= pb);
        assert(bytes_of_values(pb.push(x)) =~= bytes_of_values(pb).push(f.bytes));
    }
}

pub open spec fn is_field(f: WireFieldView, number: u32, kind: WireKind) -> bool {
    f.number == number && f.kind == kind
}

/// `concat_values` of the fields with this number and wire type `Bytes`.
spec fn merged(fs: Seq<WireFieldView>, number: u32) -> Option<Seq<u8>>
    decreases fs.len(),
{
    if fs.len() == 0 {
        None
    } else {
        let prev = merged(fs.drop_last(), number);
        let f = fs.last();
        if is_field(f, number, WireKind::Bytes) {
            match prev {
                Some(p) => Some(p + f.bytes),
                None => Some(f.bytes),
            }
        } else {
            prev
        }
    }
}

/// `last_bytes_of` of the fields with this number and wire type `Bytes`.
spec fn last_bytes(fs: Seq<WireFieldView>, number: u32) -> Option<Seq<u8>>
    decreases fs.len(),
{
    if fs.len() == 0 {
        None
    } else if is_field(fs.last(), number, WireKind::Bytes) {
        Some(fs.last().bytes)
    } else {
        last_bytes(fs.drop_last(), number)
    }
}

/// `last_number_of` of the fields with this number and wire type `Varint`.
spec fn last_varint(fs: Seq<WireFieldView>, number: u32) -> Option<u64>
    decreases fs.len(),
{
    if fs.len() == 0 {
        None
    } else if is_field(fs.last(), number, WireKind::Varint) {
        Some(fs.last().value)
    } else {
        last_varint(fs.drop_last(), number)
    }
}

/// `bytes_of_values` of the fields with this number and wire type `Bytes`.
spec fn all_bytes(fs: Seq<WireFieldView>, number: u32) -> Seq<Seq<u8>>
    decreases fs.len(),
{
    if fs.len() == 0 {
        Seq::empty()
    } else {
        let prev = all_bytes(fs.drop_last(), number);
        if is_field(fs.last(), number, WireKind::Bytes) {
            prev.push(fs.last().bytes)
        } else {
            prev
        }
    }
}

pub open spec fn bytes_opt_view(o: Option<Vec<u8>>) -> Option<Seq<u8>> {
    match o {
        Some(v) => Some(v@),
        None => None,
    }
}

fn append_bytes(out: &mut Vec<u8>, b: &Vec<u8>)
    ensures
        final(out)@ == old(out)@ + b@,
{
    let mut i: usize = 0;
    while i < b.len()
        invariant
            i <= b.len(),
            out@ == old(out)@ + b@.subrange(0, i as int),
        decreases b.len() - i,
    {
        out.push(b[i]);
        i = i + 1;
        assert(out@ =~= old(out)@ + b@.subrange(0, i as int));
    }
    assert(b@.subrange(0, i as int) =~= b@);
}

fn copy_bytes(b: &Vec<u8>) -> (r: Vec<u8>)
    ensures
        r@ == b@,
{
    let mut out: Vec<u8> = Vec::new();
    append_bytes(&mut out, b);
    assert(out@ =~= b@);
    out
}

fn merged_field(fs: &Vec<WireField>, number: u32) -> (r: Option<Vec<u8>>)
    ensures
        bytes_opt_view(r) == merged(fields_view(fs@), number),
{
    let ghost v = fields_view(fs@);
    let mut out: Option<Vec<u8>> = None;
    let mut i: usize = 0;
    while i < fs.len()
        invariant
            i <= fs.len(),
            v == fields_view(fs@),
            bytes_opt_view(out) == merged(v.subrange(0, i as int), number),
        decreases fs.len() - i,
    {
        assert(v.subrange(0, i + 1).drop_last() =~= v.subrange(0, i as int));
        assert(v[i as int] == fs@[i as int]@);
        let f = &fs[i];
        if f.number == number && f.kind == WireKind::Bytes {
            out = match out {
                Some(mut p) => {
                    append_bytes(&mut p, &f.bytes);
                    Some(p)
                },
                None => Some(copy_bytes(&f.bytes)),
            };
        }
        i = i + 1;
    }
    assert(v.subrange(0, i as int) =~= v);
    out
}

fn last_bytes_field(fs: &Vec<WireField>, number: u32) -> (r: Option<Vec<u8>>)
    ensures
        bytes_opt_view(r) == last_bytes(fields_view(fs@), number),
{
    let ghost v = fields_view(fs@);
    let mut i: usize = fs.len();
    assert(v.subrange(0, i as int) =~= v);
    while i > 0
        invariant
            i <= fs.len(),
            v == fields_view(fs@),
            last_bytes(v, number) == last_bytes(v.subrange(0, i as int), number),
        decreases i,
    {
        assert(v.subrange(0, i as int).drop_last() =~= v.subrange(0, i - 1));
        assert(v[i - 1] == fs@[i - 1]@);
        let f = &fs[i - 1];
        if f.number == number && f.kind == WireKind::Bytes {
            return Some(copy_bytes(&f.bytes));
        }
        i = i - 1;
    }
    None
}

fn last_varint_field(fs: &Vec<WireField>, number: u32) -> (r: Option<u64>)
    ensures
        r == last_varint(fields_view(fs@), number),
{
    let ghost v = fields_view(fs@);
    let mut i: usize = fs.len();
    assert(v.subrange(0, i as int) =~= v);
    while i > 0
        invariant
            i <= fs.len(),
            v == fields_view(fs@),
            last_varint(v, number) == last_varint(v.subrange(0, i as int), number),
        decreases i,
    {
        assert(v.subrange(0, i as int).drop_last() =~= v.subrange(0, i - 1));
        assert(v[i - 1] == fs@[i - 1]@);
        let f = &fs[i - 1];
        if f.number == number && f.kind == WireKind::Varint {
            return Some(f.value);
        }
        i = i - 1;
    }
    None
}

/// The header of a feed.
#[derive(Debug)]
pub struct FeedHeader {
    pub gtfs_realtime_version: String,
    pub incrementality: Option<u64>,
    pub timestamp: Option<u64>,
}

pub struct FeedHeaderView {
    pub gtfs_realtime_version: Seq<char>,
    pub incrementality: Option<u64>,
    pub timestamp: Option<u64>,
}

impl View for FeedHeader {
    type V = FeedHeaderView;

    open spec fn view(&self) -> FeedHeaderView {
        FeedHeaderView {
            gtfs_realtime_version: self.gtfs_realtime_version@,
            incrementality: self.incrementality,
            timestamp: self.timestamp,
        }
    }
}

/// One entity of a feed: its id, whether it is deleted, and the encoded
/// message of each kind of payload that it carries.
#[derive(Debug)]
pub struct FeedEntity {
    pub id: String,
    pub is_deleted: Option<bool>,
    pub trip_update: Option<Vec<u8>>,
    pub vehicle: Option<Vec<u8>>,
    pub alert: Option<Vec<u8>>,
    pub shape: Option<Vec<u8>>,
    pub stop: Option<Vec<u8>>,
    pub trip_modifications: Option<Vec<u8>>,
}

pub struct FeedEntityView {
    pub id: Seq<char>,
    pub is_deleted: Option<bool>,
    pub trip_update: Option<Seq<u8>>,
    pub vehicle: Option<Seq<u8>>,
    pub alert: Option<Seq<u8>>,
    pub shape: Option<Seq<u8>>,
    pub stop: Option<Seq<u8>>,
    pub trip_modifications: Option<Seq<u8>>,
}

impl View for FeedEntity {
    type V = FeedEntityView;

    open spec fn view(&self) -> FeedEntityView {
        FeedEntityView {
            id: self.id@,
            is_deleted: self.is_deleted,
            trip_update: bytes_opt_view(self.trip_update),
            vehicle: bytes_opt_view(self.vehicle),
            alert: bytes_opt_view(self.alert),
            shape: bytes_opt_view(self.shape),
            stop: bytes_opt_view(self.stop),
            trip_modifications: bytes_opt_view(self.trip_modifications),
        }
    }
}

/// A feed: its header and its entities.
#[derive(Debug)]
pub struct FeedMessage {
    pub header: FeedHeader,
    pub entity: Vec<FeedEntity>,
}

pub struct FeedMessageView {
    pub header: FeedHeaderView,
    pub entity: Seq<FeedEntityView>,
}

impl View for FeedMessage {
    type V = FeedMessageView;

    open spec fn view(&self) -> FeedMessageView {
        FeedMessageView {
            header: self.header@,
            entity: self.entity@.map_values(|e: FeedEntity| e@),
        }
    }
}

/// The text of the last occurrence of a text field, if present and UTF-8.
pub open spec fn text_field(message: Seq<u8>, number: u32) -> Option<Seq<char>> {
    match last_bytes_of(values(message, number, WireKind::Bytes)) {
        Some(b) => utf8_text(b),
        None => None,
    }
}

/// The value of the last occurrence of a varint field.
pub open spec fn varint_field(message: Seq<u8>, number: u32) -> Option<u64> {
    last_number_of(values(message, number, WireKind::Varint))
}

/// The merged occurrences of an embedded message field.
pub open spec fn message_field(message: Seq<u8>, number: u32) -> Option<Seq<u8>> {
    concat_values(values(message, number, WireKind::Bytes))
}

/// The header that a message encodes; its version (field 1) is required,
/// its incrementality (2) and timestamp (3) are not.
pub open spec fn header_of(message: Seq<u8>) -> Option<FeedHeaderView> {
    if !well_formed(message) {
        None
    } else {
        match text_field(message, 1) {
            Some(version) => Some(
                FeedHeaderView {
                    gtfs_realtime_version: version,
                    incrementality: varint_field(message, 2),
                    timestamp: varint_field(message, 3),
                },
            ),
            None => None,
        }
    }
}

/// The entity that a message encodes; its id (field 1) is required. Field 2
/// tells whether it is deleted; fields 3 to 8 carry its payloads.
pub open spec fn entity_of(message: Seq<u8>) -> Option<FeedEntityView> {
    if !well_formed(message) {
        None
    } else {
        match text_field(message, 1) {
            Some(id) => Some(
                FeedEntityView {
                    id,
                    is_deleted: match varint_field(message, 2) {
                        Some(v) => Some(v != 0),
                        None => None,
                    },
                    trip_update: message_field(message, 3),
                    vehicle: message_field(message, 4),
                    alert: message_field(message, 5),
                    shape: message_field(message, 6),
                    stop: message_field(message, 7),
                    trip_modifications: message_field(message, 8),
                },
            ),
            None => None,
        }
    }
}

/// The entities that the messages encode, or `None` where one does not decode.
pub open spec fn entities_of(messages: Seq<Seq<u8>>) -> Option<Seq<FeedEntityView>>
    decreases messages.len(),
{
    if messages.len() == 0 {
        Some(Seq::empty())
    } else {
        match entities_of(messages.drop_last()) {
            Some(prev) => match entity_of(messages.last()) {
                Some(e) => Some(prev.push(e)),
                None => None,
            },
            None => None,
        }
    }
}

/// The feed that a message encodes: the header (field 1) is required, and
/// each occurrence of field 2 is an entity.
pub open spec fn feed_of(message: Seq<u8>) -> Option<FeedMessageView> {
    if !well_formed(message) {
        None
    } else {
        match message_field(message, 1) {
            Some(h) => match (
                header_of(h),
                entities_of(bytes_of_values(values(message, 2, WireKind::Bytes))),
            ) {
                (Some(header), Some(entity)) => Some(FeedMessageView { header, entity }),
                _ => None,
            },
            None => None,
        }
    }
}

/// `text_field` of the fields of a message.
spec fn text_in(fs: Seq<WireFieldView>, number: u32) -> Option<Seq<char>> {
    match last_bytes(fs, number) {
        Some(b) => utf8_text(b),
        None => None,
    }
}

/// What a message's fields tell of its values, once read.
proof fn lemma_read_fields(message: Seq<u8>, fs: Seq<WireFieldView>)
    requires
        forall|number: u32, kind: WireKind| #[trigger]
            wire_values_of(message, number, kind) == Some(select(fs, number, kind)),
    ensures
        well_formed(message),
        forall|number: u32| #[trigger] text_field(message, number) == text_in(fs, number),
        forall|number: u32|
            #[trigger] last_bytes_of(values(message, number, WireKind::Bytes)) == last_bytes(fs, number),
        forall|number: u32| #[trigger] varint_field(message, number) == last_varint(fs, number),
        forall|number: u32| #[trigger] message_field(message, number) == merged(fs, number),
        bytes_of_values(values(message, 2, WireKind::Bytes)) == all_bytes(fs, 2),
{
    assert(wire_values_of(message, 1, WireKind::Bytes) == Some(select(fs, 1, WireKind::Bytes)));
    assert forall|number: u32| #[trigger] text_field(message, number) == text_in(fs, number) by {
        assert(wire_values_of(message, number, WireKind::Bytes) == Some(select(fs, number, WireKind::Bytes)));
        lemma_select(fs, number);
    }
    assert forall|number: u32|
        #[trigger] last_bytes_of(values(message, number, WireKind::Bytes)) == last_bytes(fs, number) by {
        assert(wire_values_of(message, number, WireKind::Bytes) == Some(select(fs, number, WireKind::Bytes)));
        lemma_select(fs, number);
    }
    assert forall|number: u32| #[trigger] varint_field(message, number) == last_varint(fs, number) by {
        assert(wire_values_of(message, number, WireKind::Varint) == Some(select(fs, number, WireKind::Varint)));
        lemma_select(fs, number);
    }
    assert forall|number: u32| #[trigger] message_field(message, number) == merged(fs, number) by {
        assert(wire_values_of(message, number, WireKind::Bytes) == Some(select(fs, number, WireKind::Bytes)));
        lemma_select(fs, number);
    }
    assert(wire_values_of(message, 2, WireKind::Bytes) == Some(select(fs, 2, WireKind::Bytes)));
    lemma_select(fs, 2);
}

/// A message that does not parse is not well formed.
proof fn lemma_unread(message: Seq<u8>)
    requires
        forall|number: u32, kind: WireKind| #[trigger] wire_values_of(message, number, kind) is None,
    ensures
        !well_formed(message),
{
    assert(wire_values_of(message, 1, WireKind::Bytes) is None);
}

fn required_text_of(fs: &Vec<WireField>, number: u32) -> (r: Option<String>)
    ensures
        match r {
            Some(s) => text_in(fields_view(fs@), number) == Some(s@),
            None => text_in(fields_view(fs@), number) is None,
        },
{
    match last_bytes_field(fs, number) {
        Some(b) => utf8_string(b),
        None => None,
    }
}

fn parse_header(message: &Vec<u8>) -> (r: Option<FeedHeader>)
    ensures
        match r {
            Some(h) => header_of(message@) == Some(h@),
            None => header_of(message@) is None,
        },
{
    let fs = match wire_fields(message.as_slice()) {
        Some(fs) => fs,
        None => {
            proof {
                lemma_unread(message@);
            }
            return None;
        },
    };
    proof {
        lemma_read_fields(message@, fields_view(fs@));
    }
    let version = required_text_of(&fs, 1)?;
    Some(
        FeedHeader {
            gtfs_realtime_version: version,
            incrementality: last_varint_field(&fs, 2),
            timestamp: last_varint_field(&fs, 3),
        },
    )
}

fn parse_entity(message: &Vec<u8>) -> (r: Option<FeedEntity>)
    ensures
        match r {
            Some(e) => entity_of(message@) == Some(e@),
            None => entity_of(message@) is None,
        },
{
    let fs = match wire_fields(message.as_slice()) {
        Some(fs) => fs,
        None => {
            proof {
                lemma_unread(message@);
            }
            return None;
        },
    };
    proof {
        lemma_read_fields(message@, fields_view(fs@));
    }
    let id = required_text_of(&fs, 1)?;
    let is_deleted = match last_varint_field(&fs, 2) {
        Some(v) => Some(v != 0),
        None => None,
    };
    Some(
        FeedEntity {
            id,
            is_deleted,
            trip_update: merged_field(&fs, 3),
            vehicle: merged_field(&fs, 4),
            alert: merged_field(&fs, 5),
            shape: merged_field(&fs, 6),
            stop: merged_field(&fs, 7),
            trip_modifications: merged_field(&fs, 8),
        },
    )
}

proof fn lemma_entities_fail(messages: Seq<Seq<u8>>, k: int)
    requires
        0 <= k <= messages.len(),
        entities_of(messages.subrange(0, k)) is None,
    ensures
        entities_of(messages) is None,
    decreases messages.len() - k,
{
    if k < messages.len() {
        assert(messages.subrange(0, k + 1).drop_last() =~= messages.subrange(0, k));
        lemma_entities_fail(messages, k + 1);
    } else {
        assert(messages.subrange(0, k) =~= messages);
    }
}

/// Decodes a GTFS-realtime feed; `None` where the bytes are not a feed with
/// a header and with an id on every entity.
pub fn try_parse_bytes(bytes: &[u8]) -> (r: Option<FeedMessage>)
    ensures
        match r {
            Some(m) => feed_of(bytes@) == Some(m@),
            None => feed_of(bytes@) is None,
        },
{
    let fs = match wire_fields(bytes) {
        Some(fs) => fs,
        None => {
            proof {
                lemma_unread(bytes@);
            }
            return None;
        },
    };
    proof {
        lemma_read_fields(bytes@, fields_view(fs@));
    }
    let header_bytes = merged_field(&fs, 1)?;
    let header = parse_header(&header_bytes)?;
    let ghost v = fields_view(fs@);
    let ghost all = all_bytes(v, 2);
    let mut entity: Vec<FeedEntity> = Vec::new();
    let mut i: usize = 0;
    assert(v.subrange(0, 0) =~= Seq::<WireFieldView>::empty());
    assert(entity@.map_values(|e: FeedEntity| e@) =~= Seq::<FeedEntityView>::empty());
    while i < fs.len()
        invariant
            i <= fs.len(),
            v == fields_view(fs@),
            all == all_bytes(v, 2),
            well_formed(bytes@),
            message_field(bytes@, 1) == Some(header_bytes@),
            bytes_of_values(values(bytes@, 2, WireKind::Bytes)) == all,
            header_of(header_bytes@) == Some(header@),
            entities_of(all_bytes(v.subrange(0, i as int), 2)) == Some(
                entity@.map_values(|e: FeedEntity| e@),
            ),
        decreases fs.len() - i,
    {
        assert(v.subrange(0, i + 1).drop_last() =~= v.subrange(0, i as int));
        assert(v[i as int] == fs@[i as int]@);
        let f = &fs[i];
        if f.number == 2 && f.kind == WireKind::Bytes {
            let ghost prev = all_bytes(v.subrange(0, i as int), 2);
            assert(prev.push(f.bytes@).drop_last() =~= prev);
            match parse_entity(&f.bytes) {
                Some(e) => {
                    let ghost before = entity@;
                    entity.push(e);
                    assert(entity@.map_values(|e: FeedEntity| e@) =~= before.map_values(
                        |e: FeedEntity| e@,
                    ).push(e@));
                },
                None => {
                    proof {
                        let upto = all_bytes(v.subrange(0, i + 1), 2);
                        assert(entities_of(upto) is None);
                        lemma_all_bytes_prefix(v, i + 1);
                        lemma_entities_fail(all, upto.len() as int);
                    }
                    return None;
                },
            }
        }
        i = i + 1;
    }
    assert(v.subrange(0, i as int) =~= v);
    Some(FeedMessage { header, entity })
}

proof fn lemma_all_bytes_prefix(v: Seq<WireFieldView>, k: int)
    requires
        0 <= k <= v.len(),
    ensures
        all_bytes(v.subrange(0, k), 2).len() <= all_bytes(v, 2).len(),
        all_bytes(v, 2).subrange(0, all_bytes(v.subrange(0, k), 2).len() as int) == all_bytes(
            v.subrange(0, k),
            2,
        ),
    decreases v.len() - k,
{
    if k < v.len() {
        lemma_all_bytes_prefix(v, k + 1);
        let a = all_bytes(v.subrange(0, k), 2);
        let b = all_bytes(v.subrange(0, k + 1), 2);
        assert(v.subrange(0, k + 1).drop_last() =~= v.subrange(0, k));
        let full = all_bytes(v, 2);
        if b.len() == a.len() + 1 {
            assert(full.subrange(0, a.len() as int) =~= full.subrange(0, b.len() as int).subrange(
                0,
                a.len() as int,
            ));
            assert(b.drop_last() =~= a);
        }
    } else {
        assert(v.subrange(0, k) =~= v);
        assert(all_bytes(v, 2).subrange(0, all_bytes(v, 2).len() as int) =~= all_bytes(v, 2));
    }
}

/// The position fields of a vehicle payload that say where it stands on its
/// trip: the stop sequence number (field 3), the status (field 4) and the
/// stop id (field 7).
#[derive(Debug)]
pub struct VehicleStop {
    pub current_stop_sequence: Option<u64>,
    pub current_status: Option<u64>,
    pub stop_id: Option<String>,
}

pub struct VehicleStopView {
    pub current_stop_sequence: Option<u64>,
    pub current_status: Option<u64>,
    pub stop_id: Option<Seq<char>>,
}

impl View for VehicleStop {
    type V = VehicleStopView;

    open spec fn view(&self) -> VehicleStopView {
        VehicleStopView {
            current_stop_sequence: self.current_stop_sequence,
            current_status: self.current_status,
            stop_id: match self.stop_id {
                Some(s) => Some(s@),
                None => None,
            },
        }
    }
}

/// The vehicle fields that a payload encodes; a stop id that is not UTF-8
/// makes the payload invalid.
pub open spec fn vehicle_stop_of(message: Seq<u8>) -> Option<VehicleStopView> {
    if !well_formed(message) {
        None
    } else {
        let raw = last_bytes_of(values(message, 7, WireKind::Bytes));
        let stop_id = match raw {
            Some(b) => utf8_text(b),
            None => None,
        };
        if raw is Some && stop_id is None {
            None
        } else {
            Some(
                VehicleStopView {
                    current_stop_sequence: varint_field(message, 3),
                    current_status: varint_field(message, 4),
                    stop_id,
                },
            )
        }
    }
}

/// Reads where a vehicle stands from its encoded position payload.
pub fn parse_vehicle_stop(message: &Vec<u8>) -> (r: Option<VehicleStop>)
    ensures
        match r {
            Some(v) => vehicle_stop_of(message@) == Some(v@),
            None => vehicle_stop_of(message@) is None,
        },
{
    let fs = match wire_fields(message.as_slice()) {
        Some(fs) => fs,
        None => {
            proof {
                lemma_unread(message@);
            }
            return None;
        },
    };
    proof {
        lemma_read_fields(message@, fields_view(fs@));
    }
    let stop_id = match last_bytes_field(&fs, 7) {
        Some(b) => Some(utf8_string(b)?),
        None => None,
    };
    Some(
        VehicleStop {
            current_stop_sequence: last_varint_field(&fs, 3),
            current_status: last_varint_field(&fs, 4),
            stop_id,
        },
    )
}

} // verus!
