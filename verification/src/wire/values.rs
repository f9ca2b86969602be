//! Reading byte arrays, booleans and optional byte arrays.

use vstd::prelude::*;
use crate::message::optional_view;
use crate::wire::format::{
    array_tail, boolean, byte_array, decimal, lemma_array_closes, lemma_byte_array_opens,
    lemma_byte_array_push, lemma_keyword_starts, optional_bytes, CLOSE, COMMA, OPEN,
};
use crate::wire::numeral::{digit_follows, is_digit, lemma_decimal_unique, parse_decimal};
use crate::wire::scan::{expect_text, lemma_stands_at_join, lemma_stands_at_split, stands_at};

verus! {

/// What stands in an array from its element `k` on: the number, then the
/// further elements and the closing bracket.
pub open spec fn element_onwards(elements: Seq<u8>, k: int) -> Seq<u8> {
    decimal(elements[k] as nat) + array_tail(elements.skip(k + 1))
}

/// What has been read of an array when its elements `read` are known and a
/// further one is due.
pub open spec fn array_so_far(read: Seq<u8>) -> Seq<u8> {
    if read.len() == 0 {
        seq![OPEN]
    } else {
        byte_array(read).drop_last().push(COMMA)
    }
}

/// Where an array stands, its first element stands behind the bracket.
pub proof fn lemma_first_element(bytes: Seq<u8>, at: int, elements: Seq<u8>)
    requires
        stands_at(bytes, at, byte_array(elements)),
        elements.len() > 0,
    ensures
        stands_at(bytes, at + 1, element_onwards(elements, 0)),
{
    lemma_stands_at_split(bytes, at, seq![OPEN], element_onwards(elements, 0));
}

/// Where an array stands from its element `k` on, that element stands there
/// as a number with no digit behind it, and behind it either the bracket,
/// after the last element, or a comma and the array from the next element on.
pub proof fn lemma_element_read(bytes: Seq<u8>, at: int, elements: Seq<u8>, k: int)
    requires
        0 <= k < elements.len(),
        stands_at(bytes, at, element_onwards(elements, k)),
    ensures
        stands_at(bytes, at, decimal(elements[k] as nat)),
        !digit_follows(bytes, at + decimal(elements[k] as nat).len()),
        at + decimal(elements[k] as nat).len() < bytes.len(),
        k + 1 == elements.len() ==> bytes[at + decimal(elements[k] as nat).len()] == CLOSE,
        k + 1 < elements.len() ==> bytes[at + decimal(elements[k] as nat).len()] == COMMA
            && stands_at(
            bytes,
            at + decimal(elements[k] as nat).len() + 1,
            element_onwards(elements, k + 1),
        ),
{
    let number = decimal(elements[k] as nat);
    let rest = elements.skip(k + 1);
    let tail = array_tail(rest);
    let end = at + number.len();
    lemma_stands_at_split(bytes, at, number, tail);
    assert(bytes.subrange(end, end + tail.len())[0] == tail[0]);
    if k + 1 < elements.len() {
        assert(rest.drop_first() =~= elements.skip(k + 2));
        lemma_stands_at_split(bytes, end, seq![COMMA], element_onwards(elements, k + 1));
    }
}

/// Where two arrays stand from their element `k` on at one position, and
/// agree before it, they are the same.
pub proof fn lemma_elements_unique(bytes: Seq<u8>, at: int, x: Seq<u8>, y: Seq<u8>, k: int)
    requires
        0 <= k < x.len(),
        k < y.len(),
        stands_at(bytes, at, element_onwards(x, k)),
        stands_at(bytes, at, element_onwards(y, k)),
        x.subrange(0, k) == y.subrange(0, k),
    ensures
        x == y,
    decreases x.len() - k,
{
    lemma_element_read(bytes, at, x, k);
    lemma_element_read(bytes, at, y, k);
    lemma_decimal_unique(bytes, at, x[k] as nat, y[k] as nat);
    let end = at + decimal(x[k] as nat).len();
    assert(x.subrange(0, k + 1) =~= x.subrange(0, k).push(x[k]));
    assert(y.subrange(0, k + 1) =~= y.subrange(0, k).push(y[k]));
    if k + 1 == x.len() {
        assert(x =~= x.subrange(0, k + 1));
    } else {
        lemma_elements_unique(bytes, end + 1, x, y, k + 1);
    }
}

/// At one position at most one array stands.
pub proof fn lemma_byte_array_unique(bytes: Seq<u8>, at: int, x: Seq<u8>, y: Seq<u8>)
    requires
        stands_at(bytes, at, byte_array(x)),
        stands_at(bytes, at, byte_array(y)),
    ensures
        x == y,
{
    lemma_byte_array_opens(x);
    lemma_byte_array_opens(y);
    if x.len() > 0 && y.len() > 0 {
        lemma_first_element(bytes, at, x);
        lemma_first_element(bytes, at, y);
        assert(x.subrange(0, 0) =~= y.subrange(0, 0));
        lemma_elements_unique(bytes, at + 1, x, y, 0);
    }
}

/// Reads an array of bytes at the position `at`.
pub fn parse_byte_array(bytes: &[u8], at: usize) -> (r: Option<(Vec<u8>, usize)>)
    requires
        at <= bytes@.len(),
    ensures
        r matches Some((elements, end)) ==> {
            &&& stands_at(bytes@, at as int, byte_array(elements@))
            &&& end == at + byte_array(elements@).len()
        },
        forall|s: Seq<u8>| #[trigger]
            stands_at(bytes@, at as int, byte_array(s)) ==> {
                &&& r matches Some((elements, end))
                &&& elements@ == s
                &&& end == at + byte_array(s).len()
            },
{
    proof {
        assert forall|s: Seq<u8>| #[trigger]
            stands_at(bytes@, at as int, byte_array(s)) implies {
            &&& at + 2 <= bytes@.len()
            &&& bytes@[at + 0] == OPEN
            &&& s.len() == 0 ==> bytes@[at + 1] == CLOSE
            &&& s.len() > 0 ==> is_digit(bytes@[at + 1])
        } by {
            lemma_byte_array_opens(s);
        }
    }
    if at >= bytes.len() || bytes[at] != OPEN {
        return None;
    }
    let mut i: usize = at + 1;
    if i < bytes.len() && bytes[i] == CLOSE {
        let elements: Vec<u8> = Vec::new();
        proof {
            assert(bytes@.subrange(at as int, at + 2) =~= byte_array(elements@));
        }
        return Some((elements, i + 1));
    }
    let mut elements: Vec<u8> = Vec::new();
    proof {
        assert forall|s: Seq<u8>| #[trigger]
            stands_at(bytes@, at as int, byte_array(s)) implies {
            &&& s.len() > 0
            &&& s.subrange(0, 0) == elements@
            &&& stands_at(bytes@, i as int, element_onwards(s, 0))
        } by {
            lemma_first_element(bytes@, at as int, s);
        }
    }
    loop
        invariant
            at < i <= bytes@.len() <= usize::MAX,
            bytes@.subrange(at as int, i as int) == array_so_far(elements@),
            forall|s: Seq<u8>| #[trigger]
                stands_at(bytes@, at as int, byte_array(s)) ==> {
                    &&& s.len() > elements@.len()
                    &&& s.subrange(0, elements@.len() as int) == elements@
                    &&& stands_at(bytes@, i as int, element_onwards(s, elements@.len() as int))
                },
        decreases bytes@.len() - i,
    {
        let ghost k = elements@.len() as int;
        let ghost before = elements@;
        let parsed = parse_decimal(bytes, i);
        proof {
            assert forall|s: Seq<u8>| #[trigger]
                stands_at(bytes@, at as int, byte_array(s)) implies {
                let end = i + decimal(s[k] as nat).len();
                &&& parsed == Some((s[k] as u64, end as usize))
                &&& end < bytes@.len()
                &&& k + 1 == s.len() ==> bytes@[end] == CLOSE
                &&& k + 1 < s.len() ==> bytes@[end] == COMMA && stands_at(
                    bytes@,
                    end + 1,
                    element_onwards(s, k + 1),
                )
            } by {
                lemma_element_read(bytes@, i as int, s, k);
            }
        }
        let (number, end) = match parsed {
            Some(found) => found,
            None => {
                return None;
            },
        };
        if number > 255 || end >= bytes.len() {
            return None;
        }
        let byte = number as u8;
        let separator = bytes[end];
        elements.push(byte);
        proof {
            lemma_byte_array_push(before, byte);
            lemma_stands_at_join(
                bytes@,
                at as int,
                array_so_far(before),
                decimal(byte as nat),
            );
        }
        if separator == CLOSE {
            proof {
                lemma_array_closes(elements@);
                assert(bytes@.subrange(at as int, end + 1) =~= byte_array(
                    elements@,
                ).drop_last().push(CLOSE));
                assert forall|s: Seq<u8>| #[trigger]
                    stands_at(bytes@, at as int, byte_array(s)) implies elements@ == s by {}
            }
            return Some((elements, end + 1));
        }
        if separator != COMMA {
            return None;
        }
        i = end + 1;
    }
}

/// At one position at most one of `true` and `false` stands.
pub proof fn lemma_boolean_unique(bytes: Seq<u8>, at: int, a: bool, b: bool)
    requires
        stands_at(bytes, at, boolean(a)),
        stands_at(bytes, at, boolean(b)),
    ensures
        a == b,
{
    lemma_keyword_starts();
}

/// Reads `true` or `false` at the position `at`.
pub fn parse_boolean(bytes: &[u8], at: usize) -> (r: Option<(bool, usize)>)
    requires
        at <= bytes@.len(),
    ensures
        r matches Some((b, end)) ==> {
            &&& stands_at(bytes@, at as int, boolean(b))
            &&& end == at + boolean(b).len()
        },
        forall|b: bool| #[trigger]
            stands_at(bytes@, at as int, boolean(b)) ==> r == Some(
                (b, (at + boolean(b).len()) as usize),
            ),
{
    proof {
        lemma_keyword_starts();
    }
    match expect_text(bytes, at, "true") {
        Some(end) => Some((true, end)),
        None => match expect_text(bytes, at, "false") {
            Some(end) => Some((false, end)),
            None => None,
        },
    }
}

/// At one position at most one optional byte string stands.
pub proof fn lemma_optional_bytes_unique(
    bytes: Seq<u8>,
    at: int,
    a: Option<Seq<u8>>,
    b: Option<Seq<u8>>,
)
    requires
        stands_at(bytes, at, optional_bytes(a)),
        stands_at(bytes, at, optional_bytes(b)),
    ensures
        a == b,
{
    lemma_keyword_starts();
    match (a, b) {
        (Some(x), Some(y)) => {
            lemma_byte_array_unique(bytes, at, x, y);
        },
        (Some(x), None) => {
            lemma_byte_array_opens(x);
        },
        (None, Some(y)) => {
            lemma_byte_array_opens(y);
        },
        (None, None) => {},
    }
}

/// Reads an array of bytes or `null` at the position `at`.
pub fn parse_optional_bytes(bytes: &[u8], at: usize) -> (r: Option<(Option<Vec<u8>>, usize)>)
    requires
        at <= bytes@.len(),
    ensures
        r matches Some((found, end)) ==> {
            &&& stands_at(bytes@, at as int, optional_bytes(optional_view(found)))
            &&& end == at + optional_bytes(optional_view(found)).len()
        },
        forall|o: Option<Seq<u8>>| #[trigger]
            stands_at(bytes@, at as int, optional_bytes(o)) ==> {
                &&& r matches Some((found, end))
                &&& optional_view(found) == o
                &&& end == at + optional_bytes(o).len()
            },
{
    proof {
        lemma_keyword_starts();
    }
    match expect_text(bytes, at, "null") {
        Some(end) => Some((None, end)),
        None => match parse_byte_array(bytes, at) {
            Some((elements, end)) => Some((Some(elements), end)),
            None => None,
        },
    }
}

/// The bytes of a vector as an array of `N` bytes, where there are `N`.
pub fn to_array<const N: usize>(bytes: &Vec<u8>) -> (r: Option<[u8; N]>)
    ensures
        match r {
            Some(array) => array@ == bytes@,
            None => bytes@.len() != N,
        },
{
    if bytes.len() != N {
        return None;
    }
    let mut array = [0u8; N];
    let mut i: usize = 0;
    while i < N
        invariant
            i <= N,
            bytes@.len() == N,
            forall|j: int| 0 <= j < i ==> array@[j] == bytes@[j],
        decreases N - i,
    {
        array[i] = bytes[i];
        i = i + 1;
    }
    Some(array)
}

} // verus!
