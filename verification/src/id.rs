//! The identity generator: short identifiers of the form `st-<hex>`,
//! derived from an issue's content and the time of its creation, and free
//! of collisions with the identifiers that the caller knows. The time is
//! the caller's to read.

use vstd::prelude::*;
use vstd::string::{StrSliceExecFns, StringExecFns};
use sha1::Digest;
use crate::text::{
    contains_str, decimal, decimal_text, owned, signed_decimal, signed_text, views,
};

verus! {

/// The shortest hex part of an identifier.
pub const MIN_HEX: usize = 4;

/// The longest hex part of an identifier.
pub const MAX_HEX: usize = 8;

/// The SHA-1 digest of a sequence of bytes.
pub uninterp spec fn sha1_of(data: Seq<u8>) -> Seq<u8>;

/// The lower-case hex digit of a value below 16.
pub open spec fn hex_digit(v: int) -> char {
    if v == 0 {
        '0'
    } else if v == 1 {
        '1'
    } else if v == 2 {
        '2'
    } else if v == 3 {
        '3'
    } else if v == 4 {
        '4'
    } else if v == 5 {
        '5'
    } else if v == 6 {
        '6'
    } else if v == 7 {
        '7'
    } else if v == 8 {
        '8'
    } else if v == 9 {
        '9'
    } else if v == 10 {
        'a'
    } else if v == 11 {
        'b'
    } else if v == 12 {
        'c'
    } else if v == 13 {
        'd'
    } else if v == 14 {
        'e'
    } else {
        'f'
    }
}

/// The bytes in lower-case hex: two digits for each byte, the high half
/// first.
pub open spec fn hex_of(data: Seq<u8>) -> Seq<char> {
    Seq::new(
        2 * data.len(),
        |i: int|
            if i % 2 == 0 {
                hex_digit(data[i / 2] as int / 16)
            } else {
                hex_digit(data[i / 2] as int % 16)
            },
    )
}

/// The text that is hashed for an attempt: title, description, editor, time
/// stamp and the length of the attempt, one after the other.
pub open spec fn hash_input(
    title: Seq<char>,
    description: Seq<char>,
    editor: Seq<char>,
    timestamp: i64,
    length: nat,
) -> Seq<char> {
    title + description + editor + signed_decimal(timestamp) + decimal(length)
}

/// The identifier that the attempt of the given length proposes: `st-` and
/// the first `length` hex digits of the hash.
pub open spec fn candidate(
    title: Seq<char>,
    description: Seq<char>,
    editor: Seq<char>,
    timestamp: i64,
    length: nat,
) -> Seq<char> {
    "st-"@ + hex_of(
        sha1_of(
            vstd::utf8::encode_utf8(hash_input(title, description, editor, timestamp, length)),
        ),
    ).subrange(0, length as int)
}

/// The identifier that generation arrives at when it starts with attempts
/// of the given length: that of the first attempt, up to length 8, whose
/// proposal is not among the existing identifiers. `None` where they all
/// collide.
pub open spec fn first_free(
    title: Seq<char>,
    description: Seq<char>,
    editor: Seq<char>,
    timestamp: i64,
    existing: Seq<Seq<char>>,
    length: nat,
) -> Option<Seq<char>>
    decreases 9 - length,
{
    if length > 8 {
        None
    } else if !existing.contains(candidate(title, description, editor, timestamp, length)) {
        Some(candidate(title, description, editor, timestamp, length))
    } else {
        first_free(title, description, editor, timestamp, existing, length + 1)
    }
}

/// True of a lower-case hex digit.
pub open spec fn is_hex_digit(c: char) -> bool {
    ('0' <= c && c <= '9') || ('a' <= c && c <= 'f')
}

/// True of an identifier of an attempt of the given length: `st-` and then
/// exactly `length` lower-case hex digits.
pub open spec fn has_shape(id: Seq<char>, length: nat) -> bool {
    &&& id.len() == 3 + length
    &&& "st-"@.is_prefix_of(id)
    &&& forall|i: int| 3 <= i < id.len() ==> is_hex_digit(#[trigger] id[i])
}

/// True of an identifier that begins with `st-` and has 4 to 8 lower-case
/// hex digits after it, and nothing else.
pub open spec fn well_shaped(id: Seq<char>) -> bool {
    exists|length: nat| 4 <= length <= 8 && #[trigger] has_shape(id, length)
}

/// True when every attempt of a length from 4 up to, but not including,
/// `upto` proposes an identifier of its shape that is among the existing
/// ones.
pub open spec fn taken_below(
    title: Seq<char>,
    description: Seq<char>,
    editor: Seq<char>,
    timestamp: i64,
    existing: Seq<Seq<char>>,
    upto: nat,
) -> bool {
    forall|k: nat|
        4 <= k < upto ==> has_shape(
            #[trigger] candidate(title, description, editor, timestamp, k),
            k,
        ) && existing.contains(candidate(title, description, editor, timestamp, k))
}

/// True when generation arrives at `id` with the attempt of the given
/// length: `id` is what that attempt proposes, it has the shape of the
/// length, it is not among the existing identifiers, and every shorter
/// attempt is taken.
pub open spec fn arrives_at(
    title: Seq<char>,
    description: Seq<char>,
    editor: Seq<char>,
    timestamp: i64,
    existing: Seq<Seq<char>>,
    length: nat,
    id: Seq<char>,
) -> bool {
    &&& 4 <= length <= 8
    &&& id == candidate(title, description, editor, timestamp, length)
    &&& has_shape(id, length)
    &&& !existing.contains(id)
    &&& taken_below(title, description, editor, timestamp, existing, length)
}

/// Calls `Sha1::digest` of the `sha1` crate on the bytes. The digest is
/// known by its name, `sha1_of`, and by its length: SHA-1 gives 20 bytes.
#[verifier::external_body]
fn sha1_digest(data: &[u8]) -> (r: Vec<u8>)
    ensures
        r@ == sha1_of(data@),
        r@.len() == 20,
{
    sha1::Sha1::digest(data).to_vec()
}

/// The text of one lower-case hex digit.
fn hex_digit_text(v: u8) -> (r: &'static str)
    requires
        v < 16,
    ensures
        r@ == seq![hex_digit(v as int)],
{
    proof {
        reveal_strlit("0");
        reveal_strlit("1");
        reveal_strlit("2");
        reveal_strlit("3");
        reveal_strlit("4");
        reveal_strlit("5");
        reveal_strlit("6");
        reveal_strlit("7");
        reveal_strlit("8");
        reveal_strlit("9");
        reveal_strlit("a");
        reveal_strlit("b");
        reveal_strlit("c");
        reveal_strlit("d");
        reveal_strlit("e");
        reveal_strlit("f");
    }
    let r = if v == 0 {
        "0"
    } else if v == 1 {
        "1"
    } else if v == 2 {
        "2"
    } else if v == 3 {
        "3"
    } else if v == 4 {
        "4"
    } else if v == 5 {
        "5"
    } else if v == 6 {
        "6"
    } else if v == 7 {
        "7"
    } else if v == 8 {
        "8"
    } else if v == 9 {
        "9"
    } else if v == 10 {
        "a"
    } else if v == 11 {
        "b"
    } else if v == 12 {
        "c"
    } else if v == 13 {
        "d"
    } else if v == 14 {
        "e"
    } else {
        "f"
    };
    assert(r@ =~= seq![hex_digit(v as int)]);
    r
}

/// Writes bytes in lower-case hex: two digits for each byte, the high half
/// of the byte first.
pub fn hex_encode(data: &[u8]) -> (r: String)
    ensures
        r@ == hex_of(data@),
{
    let mut out = String::new();
    let mut i: usize = 0;
    proof {
        assert(out@ =~= hex_of(data@.subrange(0, 0)));
    }
    while i < data.len()
        invariant
            i <= data.len(),
            out@ == hex_of(data@.subrange(0, i as int)),
        decreases data.len() - i,
    {
        let b = data[i];
        let ghost before = out@;
        out.append(hex_digit_text(b / 16));
        out.append(hex_digit_text(b % 16));
        proof {
            let shorter = data@.subrange(0, i as int);
            let longer = data@.subrange(0, i + 1);
            let want = hex_of(longer);
            assert(out@.len() == want.len());
            assert forall|k: int| 0 <= k < want.len() implies out@[k] == want[k] by {
                if k < 2 * i {
                    assert(out@[k] == before[k]);
                    assert(shorter[k / 2] == longer[k / 2]);
                } else {
                    assert(k / 2 == i);
                    assert(longer[i as int] == b);
                }
            }
            assert(out@ =~= want);
        }
        i += 1;
    }
    proof {
        assert(data@.subrange(0, data@.len() as int) =~= data@);
    }
    out
}

/// The identifier that the attempt of the given length proposes.
fn propose(
    title: &str,
    description: &str,
    editor: &str,
    timestamp: i64,
    length: usize,
) -> (r: String)
    requires
        MIN_HEX <= length <= MAX_HEX,
    ensures
        r@ == candidate(title@, description@, editor@, timestamp, length as nat),
        has_shape(r@, length as nat),
{
    let mut input = owned(title);
    input.append(description);
    input.append(editor);
    let stamp = signed_text(timestamp);
    input.append(stamp.as_str());
    let len_text = decimal_text(length as u64);
    input.append(len_text.as_str());
    assert(input@ == hash_input(title@, description@, editor@, timestamp, length as nat));
    let digest = sha1_digest(input.as_str().as_bytes());
    let hex = hex_encode(digest.as_slice());
    assert(hex@.len() == 40);
    let head = hex.as_str().substring_char(0, length);
    let mut id = owned("st-");
    id.append(head);
    proof {
        reveal_strlit("st-");
        assert(id@.subrange(0, 3) =~= "st-"@);
        assert forall|i: int| 3 <= i < id@.len() implies is_hex_digit(#[trigger] id@[i]) by {
            assert(id@[i] == hex@[i - 3]);
            lemma_hex_digits(digest@, i - 3);
        }
    }
    id
}

/// Generates the identifier of a new issue that is created at the given
/// time. The first attempt takes 4 hex digits; each collision with an
/// existing identifier adds one, up to 8. The caller has seen to it that
/// some attempt is free.
pub fn generate_id(
    title: &str,
    description: &str,
    editor: &str,
    timestamp: i64,
    existing_ids: &Vec<String>,
) -> (r: String)
    requires
        first_free(title@, description@, editor@, timestamp, views(existing_ids@), 4) is Some,
    ensures
        Some(r@) == first_free(title@, description@, editor@, timestamp, views(existing_ids@), 4),
        exists|length: nat| #[trigger]
            arrives_at(
                title@,
                description@,
                editor@,
                timestamp,
                views(existing_ids@),
                length,
                r@,
            ),
        !views(existing_ids@).contains(r@),
        well_shaped(r@),
{
    let ghost ex = views(existing_ids@);
    let mut length: usize = MIN_HEX;
    loop
        invariant
            MIN_HEX <= length <= MAX_HEX,
            ex == views(existing_ids@),
            first_free(title@, description@, editor@, timestamp, ex, 4) == first_free(
                title@,
                description@,
                editor@,
                timestamp,
                ex,
                length as nat,
            ),
            first_free(title@, description@, editor@, timestamp, ex, 4) is Some,
            taken_below(title@, description@, editor@, timestamp, ex, length as nat),
        decreases MAX_HEX - length,
    {
        let id = propose(title, description, editor, timestamp, length);
        if !contains_str(existing_ids, id.as_str()) {
            proof {
                assert(arrives_at(
                    title@,
                    description@,
                    editor@,
                    timestamp,
                    ex,
                    length as nat,
                    id@,
                ));
                assert(has_shape(id@, length as nat));
            }
            return id;
        }
        proof {
            if length == MAX_HEX {
                assert(first_free(title@, description@, editor@, timestamp, ex, 9) is None);
            }
        }
        length += 1;
    }
}

/// Generates the identifier of a new issue that is created at the given
/// time, or `None` where the attempts of all lengths from 4 to 8 collide
/// with existing identifiers.
pub fn try_generate_id(
    title: &str,
    description: &str,
    editor: &str,
    timestamp: i64,
    existing_ids: &Vec<String>,
) -> (r: Option<String>)
    ensures
        match r {
            Some(id) => Some(id@) == first_free(
                title@,
                description@,
                editor@,
                timestamp,
                views(existing_ids@),
                4,
            ) && (exists|length: nat| #[trigger]
                arrives_at(
                    title@,
                    description@,
                    editor@,
                    timestamp,
                    views(existing_ids@),
                    length,
                    id@,
                )) && !views(existing_ids@).contains(id@) && well_shaped(id@),
            None => first_free(
                title@,
                description@,
                editor@,
                timestamp,
                views(existing_ids@),
                4,
            ) is None && taken_below(
                title@,
                description@,
                editor@,
                timestamp,
                views(existing_ids@),
                9,
            ),
        },
{
    let ghost ex = views(existing_ids@);
    let mut length: usize = MIN_HEX;
    while length <= MAX_HEX
        invariant
            MIN_HEX <= length <= MAX_HEX + 1,
            ex == views(existing_ids@),
            first_free(title@, description@, editor@, timestamp, ex, 4) == first_free(
                title@,
                description@,
                editor@,
                timestamp,
                ex,
                length as nat,
            ),
            taken_below(title@, description@, editor@, timestamp, ex, length as nat),
        decreases MAX_HEX + 1 - length,
    {
        let id = propose(title, description, editor, timestamp, length);
        if !contains_str(existing_ids, id.as_str()) {
            return Some(generate_id(title, description, editor, timestamp, existing_ids));
        }
        length += 1;
    }
    None
}

/// Every character of the hex form of some bytes is a lower-case hex digit.
pub proof fn lemma_hex_digits(data: Seq<u8>, i: int)
    requires
        0 <= i < 2 * data.len(),
    ensures
        is_hex_digit(hex_of(data)[i]),
{
    let b = data[i / 2] as int;
    assert(0 <= b / 16 < 16);
    assert(0 <= b % 16 < 16);
}

/// Generation arrives with one attempt only: the length of what it gives is
/// fixed by the inputs.
pub proof fn lemma_arrival_is_unique(
    title: Seq<char>,
    description: Seq<char>,
    editor: Seq<char>,
    timestamp: i64,
    existing: Seq<Seq<char>>,
    a: nat,
    id_a: Seq<char>,
    b: nat,
    id_b: Seq<char>,
)
    requires
        arrives_at(title, description, editor, timestamp, existing, a, id_a),
        arrives_at(title, description, editor, timestamp, existing, b, id_b),
    ensures
        a == b,
        id_a == id_b,
{
    if a < b {
        assert(existing.contains(candidate(title, description, editor, timestamp, a)));
    } else if b < a {
        assert(existing.contains(candidate(title, description, editor, timestamp, b)));
    }
}

/// More existing identifiers never give a shorter identifier: where the
/// larger set holds all of the smaller, generation arrives at an attempt
/// that is at least as long.
pub proof fn lemma_longer_with_more(
    title: Seq<char>,
    description: Seq<char>,
    editor: Seq<char>,
    timestamp: i64,
    fewer: Seq<Seq<char>>,
    a: nat,
    id_a: Seq<char>,
    more: Seq<Seq<char>>,
    b: nat,
    id_b: Seq<char>,
)
    requires
        forall|x: Seq<char>| fewer.contains(x) ==> more.contains(x),
        arrives_at(title, description, editor, timestamp, fewer, a, id_a),
        arrives_at(title, description, editor, timestamp, more, b, id_b),
    ensures
        a <= b,
        id_a.len() <= id_b.len(),
{
    if b < a {
        assert(fewer.contains(candidate(title, description, editor, timestamp, b)));
    }
}

/// With no existing identifier, generation arrives at the first attempt:
/// four hex digits.
pub proof fn lemma_first_attempt_when_empty(
    title: Seq<char>,
    description: Seq<char>,
    editor: Seq<char>,
    timestamp: i64,
    existing: Seq<Seq<char>>,
    length: nat,
    id: Seq<char>,
)
    requires
        existing.len() == 0,
        arrives_at(title, description, editor, timestamp, existing, length, id),
    ensures
        length == 4,
        id.len() == 7,
{
    if length > 4 {
        assert(existing.contains(candidate(title, description, editor, timestamp, 4)));
    }
}

/// With every identifier of four hex digits taken and no other, generation
/// gives an identifier of five.
pub proof fn lemma_crowded_gives_five(
    title: Seq<char>,
    description: Seq<char>,
    editor: Seq<char>,
    timestamp: i64,
    existing: Seq<Seq<char>>,
    r: Option<Seq<char>>,
)
    requires
        forall|x: Seq<char>| existing.contains(x) <==> has_shape(x, 4),
        match r {
            Some(id) => exists|length: nat| #[trigger]
                arrives_at(title, description, editor, timestamp, existing, length, id),
            None => taken_below(title, description, editor, timestamp, existing, 9),
        },
    ensures
        r is Some,
        has_shape(r->Some_0, 5),
        !existing.contains(r->Some_0),
{
    match r {
        None => {
            let c = candidate(title, description, editor, timestamp, 5);
            assert(has_shape(c, 5) && existing.contains(c));
            assert(has_shape(c, 4));
        },
        Some(id) => {
            let length = choose|length: nat| #[trigger]
                arrives_at(title, description, editor, timestamp, existing, length, id);
            if length == 4 {
                assert(existing.contains(id));
            } else if length > 5 {
                let c = candidate(title, description, editor, timestamp, 5);
                assert(has_shape(c, 5) && existing.contains(c));
                assert(has_shape(c, 4));
            }
        },
    }
}

/// An identifier that generation arrives at is not among the existing
/// ones.
pub proof fn lemma_first_free_is_new(
    title: Seq<char>,
    description: Seq<char>,
    editor: Seq<char>,
    timestamp: i64,
    existing: Seq<Seq<char>>,
    length: nat,
)
    requires
        first_free(title, description, editor, timestamp, existing, length) is Some,
    ensures
        !existing.contains(
            first_free(title, description, editor, timestamp, existing, length)->Some_0,
        ),
    decreases 9 - length,
{
    if length <= 8 && existing.contains(candidate(title, description, editor, timestamp, length)) {
        lemma_first_free_is_new(title, description, editor, timestamp, existing, length + 1);
    }
}

/// An identifier that generation arrives at begins with `st-`.
pub proof fn lemma_first_free_has_prefix(
    title: Seq<char>,
    description: Seq<char>,
    editor: Seq<char>,
    timestamp: i64,
    existing: Seq<Seq<char>>,
    length: nat,
)
    requires
        first_free(title, description, editor, timestamp, existing, length) is Some,
    ensures
        "st-"@.is_prefix_of(
            first_free(title, description, editor, timestamp, existing, length)->Some_0,
        ),
    decreases 9 - length,
{
    let c = candidate(title, description, editor, timestamp, length);
    if length <= 8 && existing.contains(c) {
        lemma_first_free_has_prefix(title, description, editor, timestamp, existing, length + 1);
    } else {
        assert(c.subrange(0, "st-"@.len() as int) =~= "st-"@);
    }
}

} // verus!
