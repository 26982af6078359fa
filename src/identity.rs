//! Identity and time of notes: random 128-bit identifiers and creation timestamps.
use chrono::Utc;
use uuid::Uuid;
use vstd::arithmetic::power2::pow2;
use vstd::prelude::*;
use vstd::string::{StrSliceExecFns, StringExecFns};

verus! {

/// A point in time as seconds since the Unix epoch plus nanoseconds within that second.
#[derive(Debug, Clone, Copy, PartialEq, Eq, Structural)]
pub struct Timestamp {
    pub seconds: i64,
    pub nanos: u32,
}

/// Relies on `Uuid::new_v4`: a fresh random identifier, read as a 128-bit integer.
#[verifier::external_body]
pub(crate) fn random_id() -> (r: u128) {
    Uuid::new_v4().as_u128()
}

/// Relies on `Utc::now`, `DateTime::timestamp` and `DateTime::timestamp_subsec_nanos`: the
/// current time.
#[verifier::external_body]
pub(crate) fn now() -> (r: Timestamp) {
    let t = Utc::now();
    Timestamp { seconds: t.timestamp(), nanos: t.timestamp_subsec_nanos() }
}

/// The lowercase hexadecimal digit of `d`, for `0 <= d < 16`.
pub open spec fn hex_digit(d: int) -> char {
    if d == 0 {
        '0'
    } else if d == 1 {
        '1'
    } else if d == 2 {
        '2'
    } else if d == 3 {
        '3'
    } else if d == 4 {
        '4'
    } else if d == 5 {
        '5'
    } else if d == 6 {
        '6'
    } else if d == 7 {
        '7'
    } else if d == 8 {
        '8'
    } else if d == 9 {
        '9'
    } else if d == 10 {
        'a'
    } else if d == 11 {
        'b'
    } else if d == 12 {
        'c'
    } else if d == 13 {
        'd'
    } else if d == 14 {
        'e'
    } else {
        'f'
    }
}

/// Hex digit `k` (0 is the most significant) of the 128 bits of `v`.
pub open spec fn nibble(v: u128, k: int) -> int {
    (v as int / pow2((4 * (31 - k)) as nat) as int) % 16
}

/// The number of hyphens before position `i` of a hyphenated UUID.
pub open spec fn hyphens_before(i: int) -> int {
    if i > 23 {
        4
    } else if i > 18 {
        3
    } else if i > 13 {
        2
    } else if i > 8 {
        1
    } else {
        0
    }
}

/// The hyphenated lowercase text of the UUID whose 128 bits are `v`, in the groups 8-4-4-4-12.
pub open spec fn uuid_text(v: u128) -> Seq<char> {
    Seq::new(
        36,
        |i: int|
            if i == 8 || i == 13 || i == 18 || i == 23 {
                '-'
            } else {
                hex_digit(nibble(v, i - hyphens_before(i)))
            },
    )
}

/// The identifier that `Uuid::parse_str` reads from `s`, if it accepts `s`.
pub uninterp spec fn uuid_parse(s: Seq<char>) -> Option<u128>;

/// Relies on `Uuid::from_u128` and `Uuid`'s `Display`, which writes the hyphenated lowercase
/// form of the identifier's bytes, most significant first.
#[verifier::external_body]
pub(crate) fn id_text(id: u128) -> (r: String)
    ensures
        r@ == uuid_text(id),
{
    Uuid::from_u128(id).to_string()
}

/// Relies on `Uuid::parse_str`, which accepts among other forms the hyphenated lowercase one.
#[verifier::external_body]
pub(crate) fn parse_id(s: &str) -> (r: Option<u128>)
    ensures
        r == uuid_parse(s@),
        forall|v: u128| s@ == #[trigger] uuid_text(v) ==> r == Some(v),
{
    Uuid::parse_str(s).ok().map(|u| u.as_u128())
}

/// The character that separates a note's title from its identifier in a picker line. It is
/// an invisible separator, which typed titles do not hold.
pub const PICKER_SEPARATOR: char = '\u{2063}';

/// The line that lists a note in a picker: its title, ` - `, the separator and its identifier.
pub open spec fn picker_line(title: Seq<char>, id: u128) -> Seq<char> {
    title + seq![' ', '-', ' ', PICKER_SEPARATOR] + uuid_text(id)
}

/// The text after the last separator of `line`, if it holds one.
pub open spec fn last_field(line: Seq<char>) -> Option<Seq<char>> {
    if !line.contains(PICKER_SEPARATOR) {
        None
    } else {
        let i = choose|i: int|
            0 <= i < line.len() && line[i] == PICKER_SEPARATOR && !line.skip(i + 1).contains(
                PICKER_SEPARATOR,
            );
        Some(line.skip(i + 1))
    }
}

/// The identifier of a picker line holds no separator, so it is the line's last field.
pub proof fn lemma_last_field_of_picker_line(title: Seq<char>, id: u128)
    ensures
        last_field(picker_line(title, id)) == Some(uuid_text(id)),
{
    let line = picker_line(title, id);
    let t = uuid_text(id);
    let s = title.len() as int + 3;
    assert(!t.contains(PICKER_SEPARATOR)) by {
        assert forall|i: int| 0 <= i < t.len() implies t[i] != PICKER_SEPARATOR by {
            let d = nibble(id, i - hyphens_before(i));
            assert(0 <= d < 16);
        }
    }
    assert(line[s] == PICKER_SEPARATOR);
    assert(line.skip(s + 1) =~= t);
    let k = choose|k: int|
        0 <= k < line.len() && line[k] == PICKER_SEPARATOR && !line.skip(k + 1).contains(
            PICKER_SEPARATOR,
        );
    if k < s {
        assert(line.skip(k + 1)[s - k - 1] == PICKER_SEPARATOR);
    }
    if k > s {
        assert(t[k - s - 1] == line[k]);
    }
}

/// The identifier written after the last separator of a picker line, if there is one and
/// `Uuid::parse_str` accepts it. On a line that `MetaData::text` made it is that note's
/// identifier.
pub fn parse_picker_line(line: &str) -> (r: Option<u128>)
    ensures
        r == (match last_field(line@) {
            Some(f) => uuid_parse(f),
            None => None,
        }),
        forall|title: Seq<char>, id: u128| line@ == #[trigger] picker_line(title, id) ==> r == Some(id),
{
    let n = line.unicode_len();
    let mut i: usize = n;
    let mut found = false;
    while i > 0 && !found
        invariant
            n == line@.len(),
            i <= n,
            forall|k: int| i <= k < n ==> line@[k] != PICKER_SEPARATOR,
            found ==> i > 0 && line@[i - 1] == PICKER_SEPARATOR,
        decreases i + (if found { 0int } else { 1int }),
    {
        if line.get_char(i - 1) == PICKER_SEPARATOR {
            found = true;
        } else {
            i = i - 1;
        }
    }
    let r = if found {
        let field = line.substring_char(i, n);
        proof {
            let l = line@;
            let k = choose|k: int|
                0 <= k < l.len() && l[k] == PICKER_SEPARATOR && !l.skip(k + 1).contains(
                    PICKER_SEPARATOR,
                );
            assert(!l.skip(i as int).contains(PICKER_SEPARATOR));
            assert(l.contains(PICKER_SEPARATOR)) by {
                assert(l[i - 1] == PICKER_SEPARATOR);
            }
            if k < i - 1 {
                assert(l.skip(k + 1)[i - 1 - k - 1] == PICKER_SEPARATOR);
            }
            assert(k == i - 1);
            assert(field@ =~= l.skip(i as int));
        }
        parse_id(field)
    } else {
        proof {
            assert(!line@.contains(PICKER_SEPARATOR));
        }
        None
    };
    proof {
        assert forall|title: Seq<char>, id: u128| line@ == #[trigger] picker_line(
            title,
            id,
        ) implies r == Some(id) by {
            lemma_last_field_of_picker_line(title, id);
        }
    }
    r
}

} // verus!
