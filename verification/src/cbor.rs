//! The deterministic CBOR subset of the private launcher protocol: unsigned
//! integers, byte strings, text strings, arrays and text-keyed maps, with the
//! shortest-form headers that RFC 8949 section 4.2 requires.
use vstd::prelude::*;

use crate::launcher::{LauncherError, MAX_COLLECTION_ITEMS, MAX_LAUNCHER_FRAME_BYTES, MAX_NESTING_DEPTH};
use crate::text::{string_bytes, utf8_string};

verus! {

/// One CBOR data item of the closed subset the launcher protocol uses.
pub enum CborValue {
    /// Major type 0.
    Unsigned(u64),
    /// Major type 2.
    Bytes(Vec<u8>),
    /// Major type 3.
    Text(String),
    /// Major type 4.
    Array(Vec<CborValue>),
    /// Major type 5 with text keys, in the order held.
    TextMap(Vec<(String, CborValue)>),
}

/// The mathematical model of a CBOR item; text is held as its UTF-8 bytes.
pub enum Item {
    Unsigned(u64),
    Bytes(Seq<u8>),
    Text(Seq<u8>),
    Array(Seq<Item>),
    TextMap(Seq<(Seq<u8>, Item)>),
}

/// The model of each item of a list.
pub open spec fn items_of(values: Seq<CborValue>) -> Seq<Item>
    decreases values,
{
    if values.len() == 0 {
        Seq::empty()
    } else {
        items_of(values.subrange(0, values.len() - 1)).push(values[values.len() - 1].item())
    }
}

/// The model of each entry of a map.
pub open spec fn entries_of(entries: Seq<(String, CborValue)>) -> Seq<(Seq<u8>, Item)>
    decreases entries,
{
    if entries.len() == 0 {
        Seq::empty()
    } else {
        let last = entries[entries.len() - 1];
        entries_of(entries.subrange(0, entries.len() - 1)).push((string_bytes(last.0), last.1.item()))
    }
}

impl CborValue {
    /// The model of this value.
    pub open spec fn item(self) -> Item
        decreases self,
    {
        match self {
            CborValue::Unsigned(n) => Item::Unsigned(n),
            CborValue::Bytes(b) => Item::Bytes(b@),
            CborValue::Text(t) => Item::Text(string_bytes(t)),
            CborValue::Array(items) => Item::Array(items_of(items@)),
            CborValue::TextMap(entries) => Item::TextMap(entries_of(entries@)),
        }
    }
}

/// The model of a list has one item per value, each the model of that value.
pub proof fn lemma_items_of(values: Seq<CborValue>)
    ensures
        items_of(values).len() == values.len(),
        forall|i: int| 0 <= i < values.len() ==> #[trigger] items_of(values)[i] == values[i].item(),
    decreases values.len(),
{
    if values.len() > 0 {
        lemma_items_of(values.subrange(0, values.len() - 1));
    }
}

/// The model of a map has one entry per entry, each the key bytes and the value's model.
pub proof fn lemma_entries_of(entries: Seq<(String, CborValue)>)
    ensures
        entries_of(entries).len() == entries.len(),
        forall|i: int|
            0 <= i < entries.len() ==> #[trigger] entries_of(entries)[i] == (
            string_bytes(entries[i].0),
            entries[i].1.item(),
        ),
    decreases entries.len(),
{
    if entries.len() > 0 {
        lemma_entries_of(entries.subrange(0, entries.len() - 1));
    }
}

/// Two big-endian bytes of a value below 2^16.
pub open spec fn be2(n: u64) -> Seq<u8> {
    seq![(n / 0x100) as u8, (n % 0x100) as u8]
}

/// Four big-endian bytes of a value below 2^32.
pub open spec fn be4(n: u64) -> Seq<u8> {
    seq![
        (n / 0x100_0000) as u8,
        ((n / 0x1_0000) % 0x100) as u8,
        ((n / 0x100) % 0x100) as u8,
        (n % 0x100) as u8,
    ]
}

/// Eight big-endian bytes of a value.
pub open spec fn be8(n: u64) -> Seq<u8> {
    seq![
        (n / 0x100_0000_0000_0000) as u8,
        ((n / 0x1_0000_0000_0000) % 0x100) as u8,
        ((n / 0x100_0000_0000) % 0x100) as u8,
        ((n / 0x1_0000_0000) % 0x100) as u8,
        ((n / 0x100_0000) % 0x100) as u8,
        ((n / 0x1_0000) % 0x100) as u8,
        ((n / 0x100) % 0x100) as u8,
        (n % 0x100) as u8,
    ]
}

/// The shortest-form header of an item of major type `major` with argument `n`.
pub open spec fn header_bytes(major: u8, n: u64) -> Seq<u8> {
    let p = major * 32;
    if n < 24 {
        seq![(p + n) as u8]
    } else if n < 0x100 {
        seq![(p + 24) as u8, n as u8]
    } else if n < 0x1_0000 {
        seq![(p + 25) as u8] + be2(n)
    } else if n < 0x1_0000_0000 {
        seq![(p + 26) as u8] + be4(n)
    } else {
        seq![(p + 27) as u8] + be8(n)
    }
}

/// The encoding of an item, map entries in the order held.
pub open spec fn item_bytes(item: Item) -> Seq<u8>
    decreases item,
{
    match item {
        Item::Unsigned(n) => header_bytes(0, n),
        Item::Bytes(b) => header_bytes(2, b.len() as u64) + b,
        Item::Text(t) => header_bytes(3, t.len() as u64) + t,
        Item::Array(items) => header_bytes(4, items.len() as u64) + items_bytes(items),
        Item::TextMap(entries) => header_bytes(5, entries.len() as u64) + entries_bytes(entries),
    }
}

/// The concatenated encodings of a list of items.
pub open spec fn items_bytes(items: Seq<Item>) -> Seq<u8>
    decreases items,
{
    if items.len() == 0 {
        Seq::empty()
    } else {
        items_bytes(items.subrange(0, items.len() - 1)) + item_bytes(items[items.len() - 1])
    }
}

/// The concatenated encodings of map entries: each text key, then its value.
pub open spec fn entries_bytes(entries: Seq<(Seq<u8>, Item)>) -> Seq<u8>
    decreases entries,
{
    if entries.len() == 0 {
        Seq::empty()
    } else {
        let last = entries[entries.len() - 1];
        entries_bytes(entries.subrange(0, entries.len() - 1)) + header_bytes(3, last.0.len() as u64)
            + last.0 + item_bytes(last.1)
    }
}

/// Appends the shortest-form header of major type `major` and argument `value`.
pub fn encode_header(major: u8, value: u64, output: &mut Vec<u8>)
    requires
        major < 8,
    ensures
        final(output)@ == old(output)@ + header_bytes(major, value),
{
    let prefix: u8 = major * 32;
    if value < 24 {
        output.push(prefix + value as u8);
    } else if value < 0x100 {
        output.push(prefix + 24);
        output.push(value as u8);
    } else if value < 0x1_0000 {
        output.push(prefix + 25);
        output.push((value / 0x100) as u8);
        output.push((value % 0x100) as u8);
    } else if value < 0x1_0000_0000 {
        output.push(prefix + 26);
        output.push((value / 0x100_0000) as u8);
        output.push(((value / 0x1_0000) % 0x100) as u8);
        output.push(((value / 0x100) % 0x100) as u8);
        output.push((value % 0x100) as u8);
    } else {
        output.push(prefix + 27);
        output.push((value / 0x100_0000_0000_0000) as u8);
        output.push(((value / 0x1_0000_0000_0000) % 0x100) as u8);
        output.push(((value / 0x100_0000_0000) % 0x100) as u8);
        output.push(((value / 0x1_0000_0000) % 0x100) as u8);
        output.push(((value / 0x100_0000) % 0x100) as u8);
        output.push(((value / 0x1_0000) % 0x100) as u8);
        output.push(((value / 0x100) % 0x100) as u8);
        output.push((value % 0x100) as u8);
    }
    assert(final(output)@ =~= old(output)@ + header_bytes(major, value));
}

fn append_bytes(output: &mut Vec<u8>, bytes: &[u8])
    ensures
        final(output)@ == old(output)@ + bytes@,
{
    let mut i: usize = 0;
    while i < bytes.len()
        invariant
            i <= bytes@.len(),
            output@ == old(output)@ + bytes@.take(i as int),
        decreases bytes@.len() - i,
    {
        output.push(bytes[i]);
        assert(bytes@.take(i + 1) =~= bytes@.take(i as int).push(bytes@[i as int]));
        i = i + 1;
    }
    assert(bytes@.take(bytes@.len() as int) =~= bytes@);
}

/// Appends the encoding of `value`, map entries in the order held; the whole output
/// is refused once it would exceed `bound` bytes.
pub fn encode_bounded(value: &CborValue, output: &mut Vec<u8>, bound: usize) -> (r: Result<(), ()>)
    ensures
        r is Ok <==> old(output)@.len() + item_bytes(value.item()).len() <= bound,
        r is Ok ==> final(output)@ == old(output)@ + item_bytes(value.item()),
    decreases value,
{
    match value {
        CborValue::Unsigned(number) => {
            encode_header(0, *number, output);
        },
        CborValue::Bytes(bytes) => {
            encode_header(2, bytes.len() as u64, output);
            append_bytes(output, bytes.as_slice());
        },
        CborValue::Text(text) => {
            let bytes = text.as_str().as_bytes();
            encode_header(3, bytes.len() as u64, output);
            append_bytes(output, bytes);
        },
        CborValue::Array(items) => {
            let ghost start = output@;
            proof {
                lemma_items_of(items@);
            }
            let ghost models = items_of(items@);
            encode_header(4, items.len() as u64, output);
            let ghost head = output@;
            let mut i: usize = 0;
            while i < items.len()
                invariant
                    i <= items@.len(),
                    models == items_of(items@),
                    *value == CborValue::Array(*items),
                    start == old(output)@,
                    models.len() == items@.len(),
                    forall|k: int| 0 <= k < items@.len() ==> #[trigger] models[k] == items@[k].item(),
                    head == start + header_bytes(4, items@.len() as u64),
                    output@ == head + items_bytes(models.take(i as int)),
                decreases items@.len() - i,
            {
                proof {
                    assert(decreases_to!(*value => *items));
                    assert(decreases_to!(*items => items@));
                    assert(decreases_to!(items@ => items@[i as int]));
                }
                match encode_bounded(&items[i], output, bound) {
                    Ok(()) => {},
                    Err(e) => {
                        proof {
                            lemma_items_bytes_prefix_len(models, i as int + 1);
                            assert(models.take(i + 1).subrange(0, i as int) =~= models.take(i as int));
                            assert(models.take(i + 1)[i as int] == items@[i as int].item());
                            assert(items_bytes(models.take(i + 1)) == items_bytes(models.take(i as int))
                                + item_bytes(items@[i as int].item()));
                        }
                        return Err(e);
                    },
                }
                proof {
                    assert(models.take(i + 1).subrange(0, i as int) =~= models.take(i as int));
                    assert(models.take(i + 1)[i as int] == items@[i as int].item());
                }
                i = i + 1;
            }
            assert(models.take(models.len() as int) =~= models);
        },
        CborValue::TextMap(entries) => {
            let ghost start = output@;
            proof {
                lemma_entries_of(entries@);
            }
            let ghost models = entries_of(entries@);
            encode_header(5, entries.len() as u64, output);
            let ghost head = output@;
            let mut i: usize = 0;
            while i < entries.len()
                invariant
                    i <= entries@.len(),
                    models == entries_of(entries@),
                    *value == CborValue::TextMap(*entries),
                    start == old(output)@,
                    models.len() == entries@.len(),
                    forall|k: int|
                        0 <= k < entries@.len() ==> #[trigger] models[k] == (
                        string_bytes(entries@[k].0),
                        entries@[k].1.item(),
                    ),
                    head == start + header_bytes(5, entries@.len() as u64),
                    output@ == head + entries_bytes(models.take(i as int)),
                decreases entries@.len() - i,
            {
                let key = entries[i].0.as_str().as_bytes();
                encode_header(3, key.len() as u64, output);
                append_bytes(output, key);
                proof {
                    assert(decreases_to!(*value => *entries));
                    assert(decreases_to!(*entries => entries@));
                    assert(decreases_to!(entries@ => entries@[i as int]));
                    assert(decreases_to!(entries@[i as int] => entries@[i as int].1));
                }
                match encode_bounded(&entries[i].1, output, bound) {
                    Ok(()) => {},
                    Err(e) => {
                        proof {
                            lemma_entries_bytes_prefix_len(models, i as int + 1);
                            assert(models.take(i + 1).subrange(0, i as int) =~= models.take(i as int));
                            assert(models.take(i + 1)[i as int] == (
                            string_bytes(entries@[i as int].0),
                            entries@[i as int].1.item(),
                        ));
                            assert(entries_bytes(models.take(i + 1)) == entries_bytes(models.take(i as int))
                                + header_bytes(3, string_bytes(entries@[i as int].0).len() as u64)
                                + string_bytes(entries@[i as int].0) + item_bytes(entries@[i as int].1.item()));
                        }
                        return Err(e);
                    },
                }
                proof {
                    assert(models.take(i + 1).subrange(0, i as int) =~= models.take(i as int));
                    assert(models.take(i + 1)[i as int] == (
                    string_bytes(entries@[i as int].0),
                    entries@[i as int].1.item(),
                ));
                }
                i = i + 1;
            }
            assert(models.take(models.len() as int) =~= models);
        },
    }
    if output.len() > bound {
        return Err(());
    }
    Ok(())
}

/// Appends the encoding of `value`; the whole output is refused as `FrameTooLarge`
/// once it would exceed one launcher frame.
pub fn encode_value(value: &CborValue, output: &mut Vec<u8>) -> (r: Result<(), LauncherError>)
    ensures
        r is Ok <==> old(output)@.len() + item_bytes(value.item()).len() <= MAX_LAUNCHER_FRAME_BYTES,
        r is Ok ==> final(output)@ == old(output)@ + item_bytes(value.item()),
        r matches Err(e) ==> e == LauncherError::FrameTooLarge,
{
    match encode_bounded(value, output, MAX_LAUNCHER_FRAME_BYTES) {
        Ok(()) => Ok(()),
        Err(()) => Err(LauncherError::FrameTooLarge),
    }
}

proof fn lemma_items_bytes_prefix_len(items: Seq<Item>, n: int)
    requires
        0 <= n <= items.len(),
    ensures
        items_bytes(items.take(n)).len() <= items_bytes(items).len(),
    decreases items.len(),
{
    if n < items.len() {
        let shorter = items.subrange(0, items.len() - 1);
        assert(shorter.take(n) =~= items.take(n));
        lemma_items_bytes_prefix_len(shorter, n);
    } else {
        assert(items.take(n) =~= items);
    }
}

proof fn lemma_entries_bytes_prefix_len(entries: Seq<(Seq<u8>, Item)>, n: int)
    requires
        0 <= n <= entries.len(),
    ensures
        entries_bytes(entries.take(n)).len() <= entries_bytes(entries).len(),
    decreases entries.len(),
{
    if n < entries.len() {
        let shorter = entries.subrange(0, entries.len() - 1);
        assert(shorter.take(n) =~= entries.take(n));
        lemma_entries_bytes_prefix_len(shorter, n);
    } else {
        assert(entries.take(n) =~= entries);
    }
}

/// The big-endian value of two, four or eight bytes.
pub open spec fn be_word(s: Seq<u8>) -> int {
    if s.len() == 2 {
        s[0] * 0x100 + s[1]
    } else if s.len() == 4 {
        ((s[0] * 0x100 + s[1]) * 0x100 + s[2]) * 0x100 + s[3]
    } else if s.len() == 8 {
        ((((((s[0] * 0x100 + s[1]) * 0x100 + s[2]) * 0x100 + s[3]) * 0x100 + s[4]) * 0x100 + s[5])
            * 0x100 + s[6]) * 0x100 + s[7]
    } else {
        0
    }
}

/// Takes `length` bytes at `pos`: a length or end that no address can hold is
/// `FrameTooLarge`, one beyond the input `Truncated`.
pub open spec fn take_bytes(input: Seq<u8>, pos: int, length: int) -> Result<(Seq<u8>, int), LauncherError> {
    if length > usize::MAX || pos + length > usize::MAX {
        Err(LauncherError::FrameTooLarge)
    } else if pos + length > input.len() {
        Err(LauncherError::Truncated)
    } else {
        Ok((input.subrange(pos, pos + length), pos + length))
    }
}

/// Reads the argument of a header whose additional information is `additional`.
pub open spec fn parse_argument(input: Seq<u8>, pos: int, additional: u8) -> Result<(u64, int), LauncherError> {
    if additional < 24 {
        Ok((additional as u64, pos))
    } else if additional == 24 {
        if pos < input.len() {
            Ok((input[pos] as u64, pos + 1))
        } else {
            Err(LauncherError::Truncated)
        }
    } else if additional <= 27 {
        let width: int = if additional == 25 {
            2
        } else if additional == 26 {
            4
        } else {
            8
        };
        match take_bytes(input, pos, width) {
            Ok((b, q)) => Ok((be_word(b) as u64, q)),
            Err(e) => Err(e),
        }
    } else {
        Err(LauncherError::Malformed)
    }
}

/// Some entry of `entries` has key `key`.
pub open spec fn has_key(entries: Seq<(Seq<u8>, Item)>, key: Seq<u8>) -> bool {
    exists|i: int| 0 <= i < entries.len() && entries[i].0 == key
}

/// Parses the content of an item of major type `major` whose argument `arg` ends at `p`.
pub open spec fn parse_content(input: Seq<u8>, major: u8, arg: u64, p: int, depth: int) -> Result<
    (Item, int),
    LauncherError,
>
    decreases 64 - 2 * depth, 1int,
{
    if major == 0 {
        Ok((Item::Unsigned(arg), p))
    } else if major == 2 || major == 3 {
        match take_bytes(input, p, arg as int) {
            Err(e) => Err(e),
            Ok((b, q)) => if major == 2 {
                Ok((Item::Bytes(b), q))
            } else if vstd::utf8::valid_utf8(b) {
                Ok((Item::Text(b), q))
            } else {
                Err(LauncherError::Malformed)
            },
        }
    } else if major == 4 || major == 5 {
        if arg > MAX_COLLECTION_ITEMS {
            Err(LauncherError::FrameTooLarge)
        } else if depth + 1 > MAX_NESTING_DEPTH {
            Err(LauncherError::Malformed)
        } else if major == 4 {
            match parse_items(input, p, arg as int, depth + 1, Seq::empty()) {
                Err(e) => Err(e),
                Ok((items, q)) => Ok((Item::Array(items), q)),
            }
        } else {
            match parse_entries(input, p, arg as int, depth + 1, Seq::empty()) {
                Err(e) => Err(e),
                Ok((entries, q)) => Ok((Item::TextMap(entries), q)),
            }
        }
    } else {
        Err(LauncherError::Malformed)
    }
}

/// Parses one item at `pos` and nesting depth `depth`, returning it and the position after it.
pub open spec fn parse_item(input: Seq<u8>, pos: int, depth: int) -> Result<(Item, int), LauncherError>
    decreases 64 - 2 * depth, 2int,
{
    if depth >= MAX_NESTING_DEPTH {
        Err(LauncherError::Malformed)
    } else if pos < 0 || pos >= input.len() {
        Err(LauncherError::Truncated)
    } else if input[pos] % 32 == 31 {
        Err(LauncherError::NonCanonical)
    } else {
        match parse_argument(input, pos + 1, input[pos] % 32) {
            Err(e) => Err(e),
            Ok((arg, p)) => parse_content(input, input[pos] / 32, arg, p, depth),
        }
    }
}

/// Parses `remaining` further array items after those in `acc`.
pub open spec fn parse_items(input: Seq<u8>, pos: int, remaining: int, depth: int, acc: Seq<Item>) -> Result<
    (Seq<Item>, int),
    LauncherError,
>
    decreases 64 - 2 * depth, remaining + 3,
{
    if remaining <= 0 {
        Ok((acc, pos))
    } else {
        match parse_item(input, pos, depth) {
            Err(e) => Err(e),
            Ok((item, p)) => parse_items(input, p, remaining - 1, depth, acc.push(item)),
        }
    }
}

/// Parses `remaining` further map entries after those in `acc`; a key that is not
/// text is `Malformed`, a repeated key `DuplicateKey`.
pub open spec fn parse_entries(
    input: Seq<u8>,
    pos: int,
    remaining: int,
    depth: int,
    acc: Seq<(Seq<u8>, Item)>,
) -> Result<(Seq<(Seq<u8>, Item)>, int), LauncherError>
    decreases 64 - 2 * depth, 2 * remaining + 3,
{
    if remaining <= 0 {
        Ok((acc, pos))
    } else {
        match parse_item(input, pos, depth) {
            Err(e) => Err(e),
            Ok((key, p)) => parse_entry_value(input, key, p, remaining, depth, acc),
        }
    }
}

/// Continues a map after its key `key`, which ended at `p`.
pub open spec fn parse_entry_value(
    input: Seq<u8>,
    key: Item,
    p: int,
    remaining: int,
    depth: int,
    acc: Seq<(Seq<u8>, Item)>,
) -> Result<(Seq<(Seq<u8>, Item)>, int), LauncherError>
    decreases 64 - 2 * depth, 2 * remaining + 2,
{
    if remaining <= 0 {
        Ok((acc, p))
    } else {
        match key {
            Item::Text(k) => if has_key(acc, k) {
                Err(LauncherError::DuplicateKey)
            } else {
                match parse_item(input, p, depth) {
                    Err(e) => Err(e),
                    Ok((value, q)) => parse_entries(input, q, remaining - 1, depth, acc.push((k, value))),
                }
            },
            _ => Err(LauncherError::Malformed),
        }
    }
}

/// Reads one item at a time from an input buffer.
pub struct Decoder<'input> {
    input: &'input [u8],
    position: usize,
}

impl<'input> Decoder<'input> {
    pub closed spec fn input_of(&self) -> Seq<u8> {
        self.input@
    }

    pub closed spec fn position_of(&self) -> int {
        self.position as int
    }

    /// Starts reading at the first byte of `input`.
    pub fn new(input: &'input [u8]) -> (r: Self)
        ensures
            r.input_of() == input@,
            r.position_of() == 0,
    {
        Decoder { input, position: 0 }
    }

    /// Returns the position of the next unread byte.
    pub fn position(&self) -> (r: usize)
        ensures
            r == self.position_of(),
    {
        self.position
    }

    fn byte(&mut self) -> (r: Result<u8, LauncherError>)
        requires
            old(self).position <= old(self).input@.len(),
        ensures
            final(self).input == old(self).input,
            old(self).position < old(self).input@.len() ==> (r matches Ok(b) && b == old(
                self,
            ).input@[old(self).position as int]) && final(self).position == old(self).position + 1,
            old(self).position >= old(self).input@.len() ==> (r matches Err(e) && e
                == LauncherError::Truncated) && final(self).position == old(self).position,
    {
        if self.position >= self.input.len() {
            return Err(LauncherError::Truncated);
        }
        let byte = self.input[self.position];
        self.position = self.position + 1;
        Ok(byte)
    }

    fn bytes(&mut self, length: u64) -> (r: Result<&'input [u8], LauncherError>)
        requires
            old(self).position <= old(self).input@.len(),
        ensures
            final(self).input == old(self).input,
            final(self).position <= final(self).input@.len(),
            match take_bytes(old(self).input@, old(self).position as int, length as int) {
                Ok((b, q)) => (r matches Ok(x) && x@ == b) && final(self).position == q,
                Err(e) => r matches Err(x) && x == e,
            },
    {
        if length > usize::MAX as u64 {
            return Err(LauncherError::FrameTooLarge);
        }
        let length = length as usize;
        let end = match self.position.checked_add(length) {
            Some(end) => end,
            None => {
                return Err(LauncherError::FrameTooLarge);
            },
        };
        if end > self.input.len() {
            return Err(LauncherError::Truncated);
        }
        let bytes = &self.input[self.position..end];
        self.position = end;
        Ok(bytes)
    }

    fn argument(&mut self, additional: u8) -> (r: Result<u64, LauncherError>)
        requires
            old(self).position <= old(self).input@.len(),
        ensures
            final(self).input == old(self).input,
            final(self).position <= final(self).input@.len(),
            match parse_argument(old(self).input@, old(self).position as int, additional) {
                Ok((v, q)) => (r matches Ok(x) && x == v) && final(self).position == q,
                Err(e) => r matches Err(x) && x == e,
            },
    {
        if additional < 24 {
            Ok(additional as u64)
        } else if additional == 24 {
            let b = self.byte()?;
            Ok(b as u64)
        } else if additional == 25 {
            let b = self.bytes(2)?;
            Ok((b[0] as u64) * 0x100 + b[1] as u64)
        } else if additional == 26 {
            let b = self.bytes(4)?;
            let high = (b[0] as u64) * 0x100 + b[1] as u64;
            Ok((high * 0x100 + b[2] as u64) * 0x100 + b[3] as u64)
        } else if additional == 27 {
            let b = self.bytes(8)?;
            let w1 = (b[0] as u64) * 0x100 + b[1] as u64;
            let w2 = w1 * 0x100 + b[2] as u64;
            let w3 = w2 * 0x100 + b[3] as u64;
            let w4 = w3 * 0x100 + b[4] as u64;
            let w5 = w4 * 0x100 + b[5] as u64;
            let w6 = w5 * 0x100 + b[6] as u64;
            Ok(w6 * 0x100 + b[7] as u64)
        } else {
            Err(LauncherError::Malformed)
        }
    }

    /// Reads one item at nesting depth `depth`.
    pub fn value(&mut self, depth: usize) -> (r: Result<CborValue, LauncherError>)
        requires
            old(self).position_of() <= old(self).input_of().len(),
        ensures
            final(self).input_of() == old(self).input_of(),
            final(self).position_of() <= final(self).input_of().len(),
            match parse_item(old(self).input_of(), old(self).position_of(), depth as int) {
                Ok((item, q)) => (r matches Ok(x) && x.item() == item) && final(self).position_of() == q,
                Err(e) => r matches Err(x) && x == e,
            },
        decreases MAX_NESTING_DEPTH - depth,
    {
        if depth >= MAX_NESTING_DEPTH {
            return Err(LauncherError::Malformed);
        }
        let ghost input = self.input@;
        let ghost start = self.position as int;
        assert(start == old(self).position_of());
        let initial = self.byte()?;
        let major = initial / 32;
        let additional = initial % 32;
        if additional == 31 {
            return Err(LauncherError::NonCanonical);
        }
        let argument = self.argument(additional)?;
        let ghost p = self.position as int;
        if major == 0 {
            Ok(CborValue::Unsigned(argument))
        } else if major == 2 {
            let bytes = self.bytes(argument)?;
            Ok(CborValue::Bytes(copy_bytes(bytes)))
        } else if major == 3 {
            let bytes = self.bytes(argument)?;
            match utf8_string(copy_bytes(bytes)) {
                Some(text) => {
                    proof {
                        vstd::utf8::encode_utf8_valid_utf8(text@);
                    }
                    Ok(CborValue::Text(text))
                },
                None => Err(LauncherError::Malformed),
            }
        } else if major == 4 {
            if argument > MAX_COLLECTION_ITEMS as u64 {
                return Err(LauncherError::FrameTooLarge);
            }
            let count = argument as usize;
            let mut items: Vec<CborValue> = Vec::new();
            let mut k: usize = 0;
            proof {
                lemma_items_of(items@);
            }
            while k < count
                invariant
                    k <= count <= MAX_COLLECTION_ITEMS,
                    depth < MAX_NESTING_DEPTH,
                    self.input@ == input,
                    self.position <= input.len(),
                    items@.len() == k,
                    old(self).input_of() == input,
                    old(self).position_of() == start,
                    parse_item(input, start, depth as int) == parse_content(input, 4, argument, p, depth as int),
                    argument == count,
                    parse_items(input, p, count as int, depth + 1, Seq::empty()) == parse_items(
                        input,
                        self.position as int,
                        count - k,
                        depth + 1,
                        items_of(items@),
                    ),
                decreases count - k,
            {
                let item = self.value(depth + 1)?;
                let ghost before = items@;
                items.push(item);
                proof {
                    assert(items@.subrange(0, items@.len() - 1) =~= before);
                }
                k = k + 1;
            }
            proof {
                lemma_items_of(items@);
            }
            Ok(CborValue::Array(items))
        } else if major == 5 {
            if argument > MAX_COLLECTION_ITEMS as u64 {
                return Err(LauncherError::FrameTooLarge);
            }
            let count = argument as usize;
            let mut entries: Vec<(String, CborValue)> = Vec::new();
            let mut k: usize = 0;
            while k < count
                invariant
                    k <= count <= MAX_COLLECTION_ITEMS,
                    depth < MAX_NESTING_DEPTH,
                    self.input@ == input,
                    self.position <= input.len(),
                    entries@.len() == k,
                    old(self).input_of() == input,
                    old(self).position_of() == start,
                    parse_item(input, start, depth as int) == parse_content(input, 5, argument, p, depth as int),
                    argument == count,
                    parse_entries(input, p, count as int, depth + 1, Seq::empty()) == parse_entries(
                        input,
                        self.position as int,
                        count - k,
                        depth + 1,
                        entries_of(entries@),
                    ),
                decreases count - k,
            {
                let key_value = self.value(depth + 1)?;
                let key = match key_value {
                    CborValue::Text(key) => key,
                    _ => {
                        return Err(LauncherError::Malformed);
                    },
                };
                if contains_key(&entries, &key) {
                    return Err(LauncherError::DuplicateKey);
                }
                let value = self.value(depth + 1)?;
                let ghost before = entries@;
                entries.push((key, value));
                proof {
                    assert(entries@.subrange(0, entries@.len() - 1) =~= before);
                }
                k = k + 1;
            }
            Ok(CborValue::TextMap(entries))
        } else {
            Err(LauncherError::Malformed)
        }
    }
}

fn copy_bytes(bytes: &[u8]) -> (r: Vec<u8>)
    ensures
        r@ == bytes@,
{
    let mut out: Vec<u8> = Vec::new();
    append_bytes(&mut out, bytes);
    assert(out@ =~= bytes@);
    out
}

fn contains_key(entries: &Vec<(String, CborValue)>, key: &String) -> (r: bool)
    ensures
        r == has_key(entries_of(entries@), string_bytes(*key)),
{
    proof {
        lemma_entries_of(entries@);
    }
    let mut i: usize = 0;
    while i < entries.len()
        invariant
            i <= entries@.len(),
            entries_of(entries@).len() == entries@.len(),
            forall|k: int|
                0 <= k < entries@.len() ==> #[trigger] entries_of(entries@)[k] == (
                string_bytes(entries@[k].0),
                entries@[k].1.item(),
            ),
            forall|k: int| 0 <= k < i ==> string_bytes(entries@[k].0) != string_bytes(*key),
        decreases entries@.len() - i,
    {
        if entries[i].0 == *key {
            assert(entries_of(entries@)[i as int].0 == string_bytes(*key));
            return true;
        }
        proof {
            assert(entries@[i as int].0@ != key@);
            vstd::utf8::encode_utf8_decode_utf8(entries@[i as int].0@);
            vstd::utf8::encode_utf8_decode_utf8(key@);
        }
        i = i + 1;
    }
    false
}

/// Reading back two big-endian bytes gives the value written.
pub proof fn lemma_be2_round_trip(n: u64)
    requires
        n < 0x1_0000,
    ensures
        be_word(be2(n)) == n,
        be2(n).len() == 2,
{
    let b = be2(n);
    assert(b[0] == n / 0x100 && b[1] == n % 0x100);
}

/// Reading back four big-endian bytes gives the value written.
pub proof fn lemma_be4_round_trip(n: u64)
    requires
        n < 0x1_0000_0000,
    ensures
        be_word(be4(n)) == n,
        be4(n).len() == 4,
{
    let b = be4(n);
    assert(b[0] == n / 0x100_0000);
    assert(b[1] == (n / 0x1_0000) % 0x100);
    assert(b[2] == (n / 0x100) % 0x100);
    assert(b[3] == n % 0x100);
    assert(((n / 0x100_0000) * 0x100 + (n / 0x1_0000) % 0x100) == n / 0x1_0000) by (nonlinear_arith)
        requires n < 0x1_0000_0000;
    assert(((n / 0x1_0000) * 0x100 + (n / 0x100) % 0x100) == n / 0x100) by (nonlinear_arith);
    assert(((n / 0x100) * 0x100 + n % 0x100) == n) by (nonlinear_arith);
}

/// Reading back eight big-endian bytes gives the value written.
pub proof fn lemma_be8_round_trip(n: u64)
    ensures
        be_word(be8(n)) == n,
        be8(n).len() == 8,
{
    let b = be8(n);
    assert(b[0] == n / 0x100_0000_0000_0000);
    assert(b[1] == (n / 0x1_0000_0000_0000) % 0x100);
    assert(b[2] == (n / 0x100_0000_0000) % 0x100);
    assert(b[3] == (n / 0x1_0000_0000) % 0x100);
    assert(b[4] == (n / 0x100_0000) % 0x100);
    assert(b[5] == (n / 0x1_0000) % 0x100);
    assert(b[6] == (n / 0x100) % 0x100);
    assert(b[7] == n % 0x100);
    assert((n / 0x100_0000_0000_0000) * 0x100 + (n / 0x1_0000_0000_0000) % 0x100 == n / 0x1_0000_0000_0000) by (nonlinear_arith);
    assert((n / 0x1_0000_0000_0000) * 0x100 + (n / 0x100_0000_0000) % 0x100 == n / 0x100_0000_0000) by (nonlinear_arith);
    assert((n / 0x100_0000_0000) * 0x100 + (n / 0x1_0000_0000) % 0x100 == n / 0x1_0000_0000) by (nonlinear_arith);
    assert((n / 0x1_0000_0000) * 0x100 + (n / 0x100_0000) % 0x100 == n / 0x100_0000) by (nonlinear_arith);
    assert((n / 0x100_0000) * 0x100 + (n / 0x1_0000) % 0x100 == n / 0x1_0000) by (nonlinear_arith);
    assert((n / 0x1_0000) * 0x100 + (n / 0x100) % 0x100 == n / 0x100) by (nonlinear_arith);
    assert((n / 0x100) * 0x100 + n % 0x100 == n) by (nonlinear_arith);
}

/// An item the decoder reads back: at depth `depth` below the nesting limit, its
/// collections within the item limit with children one level deeper, its texts
/// UTF-8, and no map key repeated.
pub open spec fn item_ok(x: Item, depth: int) -> bool
    decreases x,
{
    0 <= depth < MAX_NESTING_DEPTH && match x {
        Item::Unsigned(_) => true,
        Item::Bytes(_) => true,
        Item::Text(t) => vstd::utf8::valid_utf8(t),
        Item::Array(xs) => {
            &&& depth + 1 < MAX_NESTING_DEPTH
            &&& xs.len() <= MAX_COLLECTION_ITEMS
            &&& forall|i: int| 0 <= i < xs.len() ==> item_ok(#[trigger] xs[i], depth + 1)
        },
        Item::TextMap(es) => {
            &&& depth + 1 < MAX_NESTING_DEPTH
            &&& es.len() <= MAX_COLLECTION_ITEMS
            &&& forall|i: int|
                0 <= i < es.len() ==> vstd::utf8::valid_utf8((#[trigger] es[i]).0) && item_ok(es[i].1, depth + 1)
            &&& forall|i: int, j: int| 0 <= i < j < es.len() ==> (#[trigger] es[i]).0 != (#[trigger] es[j]).0
        },
    }
}

/// A header parses back to its major type and argument.
proof fn lemma_parse_header(input: Seq<u8>, pos: int, major: u8, n: u64)
    requires
        major <= 7,
        0 <= pos,
        pos + header_bytes(major, n).len() <= input.len(),
        input.len() <= usize::MAX,
        input.subrange(pos, pos + header_bytes(major, n).len()) == header_bytes(major, n),
    ensures
        header_bytes(major, n).len() >= 1,
        input[pos] / 32 == major,
        input[pos] % 32 != 31,
        parse_argument(input, pos + 1, input[pos] % 32) == Ok::<(u64, int), LauncherError>(
            (n, pos + header_bytes(major, n).len()),
        ),
{
    let h = header_bytes(major, n);
    assert(input[pos] == h[0]);
    assert(input.subrange(pos + 1, pos + h.len()) =~= input.subrange(pos, pos + h.len()).subrange(1, h.len() as int));
    let p = major * 32;
    if n < 24 {
        assert(h[0] == (p + n) as u8);
    } else if n < 0x100 {
        assert(h[0] == (p + 24) as u8);
        assert(input[pos + 1] == h[1]);
    } else if n < 0x1_0000 {
        lemma_be2_round_trip(n);
        assert(h[0] == (p + 25) as u8);
        assert(h.subrange(1, 3) =~= be2(n));
    } else if n < 0x1_0000_0000 {
        lemma_be4_round_trip(n);
        assert(h[0] == (p + 26) as u8);
        assert(h.subrange(1, 5) =~= be4(n));
    } else {
        lemma_be8_round_trip(n);
        assert(h[0] == (p + 27) as u8);
        assert(h.subrange(1, 9) =~= be8(n));
    }
}


proof fn lemma_split(input: Seq<u8>, pos: int, a: Seq<u8>, b: Seq<u8>)
    requires
        0 <= pos,
        pos + a.len() + b.len() <= input.len(),
        input.subrange(pos, pos + a.len() + b.len()) == a + b,
    ensures
        input.subrange(pos, pos + a.len()) == a,
        input.subrange(pos + a.len(), pos + a.len() + b.len()) == b,
{
    assert(input.subrange(pos, pos + a.len()) =~= (a + b).subrange(0, a.len() as int));
    assert(input.subrange(pos + a.len(), pos + a.len() + b.len()) =~= (a + b).subrange(
        a.len() as int,
        (a.len() + b.len()) as int,
    ));
    assert((a + b).subrange(0, a.len() as int) =~= a);
    assert((a + b).subrange(a.len() as int, (a.len() + b.len()) as int) =~= b);
}

/// The encoding of a nonempty list is the encoding of its first item, then the rest.
proof fn lemma_items_bytes_front(xs: Seq<Item>)
    requires
        xs.len() > 0,
    ensures
        items_bytes(xs) == item_bytes(xs[0]) + items_bytes(xs.subrange(1, xs.len() as int)),
    decreases xs.len(),
{
    if xs.len() == 1 {
        assert(xs.subrange(0, 0) =~= Seq::<Item>::empty());
        assert(xs.subrange(1, 1) =~= Seq::<Item>::empty());
        assert(items_bytes(xs.subrange(0, 0)) =~= Seq::<u8>::empty());
        assert(item_bytes(xs[0]) + Seq::<u8>::empty() =~= item_bytes(xs[0]));
    } else {
        let init = xs.subrange(0, xs.len() - 1);
        lemma_items_bytes_front(init);
        assert(init.subrange(1, init.len() as int) =~= xs.subrange(1, xs.len() - 1));
        let rest = xs.subrange(1, xs.len() as int);
        assert(rest.subrange(0, rest.len() - 1) =~= xs.subrange(1, xs.len() - 1));
        assert(rest[rest.len() - 1] == xs[xs.len() - 1]);
        assert(items_bytes(xs) =~= item_bytes(xs[0]) + items_bytes(rest));
    }
}

/// The encoding of one map entry: its text key, then its value.
pub open spec fn entry_bytes(e: (Seq<u8>, Item)) -> Seq<u8> {
    header_bytes(3, e.0.len() as u64) + e.0 + item_bytes(e.1)
}

/// The encoding of nonempty map entries is the encoding of the first, then the rest.
proof fn lemma_entries_bytes_front(es: Seq<(Seq<u8>, Item)>)
    requires
        es.len() > 0,
    ensures
        entries_bytes(es) == entry_bytes(es[0]) + entries_bytes(es.subrange(1, es.len() as int)),
    decreases es.len(),
{
    if es.len() == 1 {
        assert(es.subrange(0, 0) =~= Seq::<(Seq<u8>, Item)>::empty());
        assert(es.subrange(1, 1) =~= Seq::<(Seq<u8>, Item)>::empty());
        assert(entries_bytes(es.subrange(0, 0)) == Seq::<u8>::empty());
        assert(entries_bytes(es) =~= entry_bytes(es[0]) + Seq::<u8>::empty());
    } else {
        let init = es.subrange(0, es.len() - 1);
        lemma_entries_bytes_front(init);
        assert(init.subrange(1, init.len() as int) =~= es.subrange(1, es.len() - 1));
        let rest = es.subrange(1, es.len() as int);
        assert(rest.subrange(0, rest.len() - 1) =~= es.subrange(1, es.len() - 1));
        assert(rest[rest.len() - 1] == es[es.len() - 1]);
        assert(entries_bytes(es) =~= entry_bytes(es[0]) + entries_bytes(rest));
    }
}

/// The bytes of an item placed at `pos` parse back to it; leaves only.
proof fn lemma_parse_leaf(input: Seq<u8>, pos: int, x: Item, depth: int)
    requires
        item_ok(x, depth),
        x is Unsigned || x is Bytes || x is Text,
        0 <= pos,
        pos + item_bytes(x).len() <= input.len(),
        input.len() <= usize::MAX,
        input.subrange(pos, pos + item_bytes(x).len()) == item_bytes(x),
    ensures
        parse_item(input, pos, depth) == Ok::<(Item, int), LauncherError>((x, pos + item_bytes(x).len())),
{
    match x {
        Item::Unsigned(n) => {
            lemma_parse_header(input, pos, 0, n);
        },
        Item::Bytes(b) => {
            let h = header_bytes(2, b.len() as u64);
            assert(b.len() <= u64::MAX);
            lemma_split(input, pos, h, b);
            lemma_parse_header(input, pos, 2, b.len() as u64);
        },
        Item::Text(t) => {
            let h = header_bytes(3, t.len() as u64);
            assert(t.len() <= u64::MAX);
            lemma_split(input, pos, h, t);
            lemma_parse_header(input, pos, 3, t.len() as u64);
        },
        _ => {},
    }
}

/// The bytes of an item the decoder reads back, placed at `pos`, parse back to it.
pub proof fn lemma_parse_item_bytes(input: Seq<u8>, pos: int, x: Item, depth: int)
    requires
        item_ok(x, depth),
        0 <= pos,
        pos + item_bytes(x).len() <= input.len(),
        input.len() <= usize::MAX,
        input.subrange(pos, pos + item_bytes(x).len()) == item_bytes(x),
    ensures
        parse_item(input, pos, depth) == Ok::<(Item, int), LauncherError>((x, pos + item_bytes(x).len())),
    decreases x, 0int,
{
    match x {
        Item::Array(xs) => {
            let h = header_bytes(4, xs.len() as u64);
            lemma_split(input, pos, h, items_bytes(xs));
            lemma_parse_header(input, pos, 4, xs.len() as u64);
            lemma_parse_items_bytes(input, pos + h.len(), xs, depth + 1, Seq::empty());
            assert(Seq::<Item>::empty() + xs =~= xs);
        },
        Item::TextMap(es) => {
            let h = header_bytes(5, es.len() as u64);
            lemma_split(input, pos, h, entries_bytes(es));
            lemma_parse_header(input, pos, 5, es.len() as u64);
            lemma_parse_entries_bytes(input, pos + h.len(), es, depth + 1, Seq::empty());
            assert(Seq::<(Seq<u8>, Item)>::empty() + es =~= es);
        },
        _ => {
            lemma_parse_leaf(input, pos, x, depth);
        },
    }
}

proof fn lemma_parse_items_bytes(input: Seq<u8>, pos: int, xs: Seq<Item>, depth: int, acc: Seq<Item>)
    requires
        forall|i: int| 0 <= i < xs.len() ==> item_ok(#[trigger] xs[i], depth),
        0 <= pos,
        pos + items_bytes(xs).len() <= input.len(),
        input.len() <= usize::MAX,
        input.subrange(pos, pos + items_bytes(xs).len()) == items_bytes(xs),
    ensures
        parse_items(input, pos, xs.len() as int, depth, acc) == Ok::<(Seq<Item>, int), LauncherError>(
            (acc + xs, pos + items_bytes(xs).len()),
        ),
    decreases xs, 1int,
{
    if xs.len() == 0 {
        assert(acc + xs =~= acc);
    } else {
        let rest = xs.subrange(1, xs.len() as int);
        lemma_items_bytes_front(xs);
        lemma_split(input, pos, item_bytes(xs[0]), items_bytes(rest));
        lemma_parse_item_bytes(input, pos, xs[0], depth);
        assert forall|i: int| 0 <= i < rest.len() implies item_ok(#[trigger] rest[i], depth) by {
            assert(rest[i] == xs[i + 1]);
        }
        lemma_parse_items_bytes(input, pos + item_bytes(xs[0]).len(), rest, depth, acc.push(xs[0]));
        assert(acc.push(xs[0]) + rest =~= acc + xs);
    }
}

proof fn lemma_parse_entries_bytes(
    input: Seq<u8>,
    pos: int,
    es: Seq<(Seq<u8>, Item)>,
    depth: int,
    acc: Seq<(Seq<u8>, Item)>,
)
    requires
        0 <= depth < MAX_NESTING_DEPTH,
        forall|i: int| 0 <= i < es.len() ==> vstd::utf8::valid_utf8((#[trigger] es[i]).0) && item_ok(es[i].1, depth),
        forall|i: int, j: int| 0 <= i < j < es.len() ==> (#[trigger] es[i]).0 != (#[trigger] es[j]).0,
        forall|i: int, j: int| 0 <= i < acc.len() && 0 <= j < es.len() ==> (#[trigger] acc[i]).0 != (#[trigger] es[j]).0,
        0 <= pos,
        pos + entries_bytes(es).len() <= input.len(),
        input.len() <= usize::MAX,
        input.subrange(pos, pos + entries_bytes(es).len()) == entries_bytes(es),
    ensures
        parse_entries(input, pos, es.len() as int, depth, acc) == Ok::<(Seq<(Seq<u8>, Item)>, int), LauncherError>(
            (acc + es, pos + entries_bytes(es).len()),
        ),
    decreases es, 1int,
{
    if es.len() == 0 {
        assert(acc + es =~= acc);
    } else {
        let e = es[0];
        let rest = es.subrange(1, es.len() as int);
        lemma_entries_bytes_front(es);
        let key = Item::Text(e.0);
        assert(item_bytes(key) == header_bytes(3, e.0.len() as u64) + e.0);
        assert(entry_bytes(e) == item_bytes(key) + item_bytes(e.1));
        lemma_split(input, pos, entry_bytes(e), entries_bytes(rest));
        lemma_split(input, pos, item_bytes(key), item_bytes(e.1));
        assert(item_ok(key, depth));
        lemma_parse_leaf(input, pos, key, depth);
        let p = pos + item_bytes(key).len();
        assert(!has_key(acc, e.0)) by {
            if has_key(acc, e.0) {
                let i = choose|i: int| 0 <= i < acc.len() && acc[i].0 == e.0;
                assert(acc[i].0 != es[0].0);
            }
        }
        assert(item_ok(es[0].1, depth));
        lemma_parse_item_bytes(input, p, e.1, depth);
        let q = p + item_bytes(e.1).len();
        let acc2 = acc.push((e.0, e.1));
        assert forall|i: int| 0 <= i < rest.len() implies vstd::utf8::valid_utf8((#[trigger] rest[i]).0) && item_ok(
            rest[i].1,
            depth,
        ) by {
            assert(rest[i] == es[i + 1]);
        }
        assert forall|i: int, j: int| 0 <= i < j < rest.len() implies (#[trigger] rest[i]).0 != (#[trigger] rest[j]).0 by {
            assert(rest[i] == es[i + 1] && rest[j] == es[j + 1]);
        }
        assert forall|i: int, j: int| 0 <= i < acc2.len() && 0 <= j < rest.len() implies (#[trigger] acc2[i]).0 != (
        #[trigger] rest[j]).0 by {
            assert(rest[j] == es[j + 1]);
            if i < acc.len() {
                assert(acc2[i] == acc[i]);
            } else {
                assert(acc2[i] == es[0]);
            }
        }
        lemma_parse_entries_bytes(input, q, rest, depth, acc2);
        assert(acc2 + rest =~= acc + es);
        assert(q + entries_bytes(rest).len() == pos + entries_bytes(es).len());
    }
}

} // verus!
