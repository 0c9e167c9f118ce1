use vstd::prelude::*;
use vstd::string::*;

use crate::error::ImageLoadError;

verus! {

/// The decimal digit character of `d`, for `d < 10`.
pub open spec fn digit_char(d: nat) -> char {
    ((d + '0' as nat) as u32) as char
}

/// Decimal representation of `n`, without leading zeros.
pub open spec fn decimal(n: nat) -> Seq<char>
    decreases n,
{
    if n < 10 {
        seq![digit_char(n)]
    } else {
        decimal(n / 10) + seq![digit_char(n % 10)]
    }
}

/// Name of the image file of frame `index`: `r_<index>.png`.
pub open spec fn spec_image_file_name(index: nat) -> Seq<char> {
    seq!['r', '_'] + decimal(index) + seq!['.', 'p', 'n', 'g']
}

fn digit_str(d: usize) -> (r: &'static str)
    requires
        d < 10,
    ensures
        r@ == seq![digit_char(d as nat)],
{
    proof {
        reveal_strlit("0");
        reveal_strlit("1");
        reveal_strlit("2");
        reveal_strlit("3");
        reveal_strlit("4");
        reveal_strlit("5");
        reveal_strlit("6");
        reveal_strlit("7");
        reveal_strlit("8");
        reveal_strlit("9");
    }
    let r = if d == 0 {
        "0"
    } else if d == 1 {
        "1"
    } else if d == 2 {
        "2"
    } else if d == 3 {
        "3"
    } else if d == 4 {
        "4"
    } else if d == 5 {
        "5"
    } else if d == 6 {
        "6"
    } else if d == 7 {
        "7"
    } else if d == 8 {
        "8"
    } else {
        "9"
    };
    assert(r@ =~= seq![digit_char(d as nat)]);
    r
}

fn append_decimal(s: &mut String, n: usize)
    ensures
        final(s)@ == old(s)@ + decimal(n as nat),
    decreases n,
{
    if n >= 10 {
        append_decimal(s, n / 10);
    }
    s.append(digit_str(n % 10));
    assert(s@ =~= old(s)@ + decimal(n as nat));
}

/// Name of the image file of frame `index` in a split's directory.
pub fn image_file_name(index: usize) -> (r: String)
    ensures
        r@ == spec_image_file_name(index as nat),
{
    proof {
        reveal_strlit("r_");
        reveal_strlit(".png");
    }
    let mut s = String::from_str("r_");
    append_decimal(&mut s, index);
    s.append(".png");
    assert(s@ =~= spec_image_file_name(index as nat));
    s
}

/// Gathers the decoded images of a split from their slots, slot `i`
/// holding image `i`. A single empty slot fails the whole load, naming the
/// first missing index; no partial collection is handed out.
pub fn collect_images<T>(slots: Vec<Option<T>>) -> (r: Result<Vec<T>, ImageLoadError>)
    ensures
        r is Ok <==> (forall|i: int| 0 <= i < slots@.len() ==> (#[trigger] slots@[i]) is Some),
        match r {
            Ok(v) => {
                &&& v@.len() == slots@.len()
                &&& forall|i: int| 0 <= i < v@.len() ==> slots@[i] == Some(#[trigger] v@[i])
            },
            Err(ImageLoadError::Missing { index }) => {
                &&& index < slots@.len()
                &&& slots@[index as int] is None
                &&& forall|j: int| 0 <= j < index ==> (#[trigger] slots@[j]) is Some
            },
        },
{
    let n = slots.len();
    let mut i: usize = 0;
    while i < n
        invariant
            n == slots@.len(),
            0 <= i <= n,
            forall|j: int| 0 <= j < i ==> (#[trigger] slots@[j]) is Some,
        decreases n - i,
    {
        if slots[i].is_none() {
            return Err(ImageLoadError::Missing { index: i });
        }
        i = i + 1;
    }
    let ghost orig = slots@;
    let mut rest = slots;
    let mut out: Vec<T> = Vec::new();
    while rest.len() > 0
        invariant
            n == orig.len(),
            forall|j: int| 0 <= j < n ==> (#[trigger] orig[j]) is Some,
            out@.len() + rest@.len() == n,
            rest@ == orig.subrange(out@.len() as int, n as int),
            forall|j: int| 0 <= j < out@.len() ==> orig[j] == Some(#[trigger] out@[j]),
        decreases rest@.len(),
    {
        let ghost k = out@.len();
        let slot = rest.remove(0);
        assert(slot == orig[k as int]);
        match slot {
            Some(x) => {
                out.push(x);
            },
            None => {
                assert(orig[k as int] is Some);
            },
        }
        assert(rest@ =~= orig.subrange(out@.len() as int, n as int));
    }
    Ok(out)
}

} // verus!
