use vstd::prelude::*;
use vstd::string::StringExecFns;

verus! {

/// The characters `list[i..j]` form one entry of the comma-joined `list`:
/// the run is bounded by commas (or by the ends of the list) and holds none.
pub open spec fn is_entry(list: Seq<char>, i: int, j: int) -> bool {
    &&& 0 <= i <= j <= list.len()
    &&& (i == 0 || list[i - 1] == ',')
    &&& (j == list.len() || list[j] == ',')
    &&& forall|k: int| i <= k < j ==> list[k] != ','
}

/// `item` is one of the entries of the comma-joined `list`. Entries are
/// compared character by character: no trimming, no case folding. An empty
/// `list` has the single entry `""`.
pub open spec fn listed(list: Seq<char>, item: Seq<char>) -> bool {
    exists|i: int, j: int| #[trigger] is_entry(list, i, j) && list.subrange(i, j) == item
}

/// The character that stands for the digit `d`.
pub open spec fn digit(d: nat) -> char {
    if d == 0 {
        '0'
    } else if d == 1 {
        '1'
    } else if d == 2 {
        '2'
    } else if d == 3 {
        '3'
    } else if d == 4 {
        '4'
    } else if d == 5 {
        '5'
    } else if d == 6 {
        '6'
    } else if d == 7 {
        '7'
    } else if d == 8 {
        '8'
    } else {
        '9'
    }
}

/// The decimal digits of `n`, most significant first, without leading zeros.
pub open spec fn decimal(n: nat) -> Seq<char>
    decreases n,
{
    if n < 10 {
        seq![digit(n)]
    } else {
        decimal(n / 10).push(digit(n % 10))
    }
}

/// The text that stands for a flag.
pub open spec fn flag(on: bool) -> Seq<char> {
    if on {
        "true"@
    } else {
        "false"@
    }
}

/// The characters of `s`, in order.
pub fn chars_of(s: &str) -> (chars: Vec<char>)
    ensures
        chars@ == s@,
{
    broadcast use vstd::string::group_string_axioms;

    let mut chars: Vec<char> = Vec::new();
    for c in it: s.chars()
        invariant
            it.seq() == s@,
            chars@ == s@.take(it.index() as int),
    {
        assert(s@.take(it.index() + 1) == s@.take(it.index() as int).push(c));
        chars.push(c);
    }
    assert(chars@ == s@);
    chars
}

/// Whether `text[from..to]` and `item` hold the same characters.
fn run_equals(text: &Vec<char>, from: usize, to: usize, item: &Vec<char>) -> (same: bool)
    requires
        from <= to <= text@.len(),
    ensures
        same == (text@.subrange(from as int, to as int) == item@),
{
    if to - from != item.len() {
        return false;
    }
    let mut k: usize = 0;
    while k < item.len()
        invariant
            from <= to <= text@.len(),
            to - from == item@.len(),
            k <= item@.len(),
            forall|t: int| 0 <= t < k ==> text@[from + t] == item@[t],
        decreases item@.len() - k,
    {
        if text[from + k] != item[k] {
            assert(text@.subrange(from as int, to as int)[k as int] != item@[k as int]);
            return false;
        }
        k += 1;
    }
    assert(text@.subrange(from as int, to as int) =~= item@);
    true
}

/// Whether `item` is one of the entries of the comma-joined `list`.
pub fn is_listed(list: &Vec<char>, item: &Vec<char>) -> (found: bool)
    ensures
        found == listed(list@, item@),
{
    let mut start: usize = 0;
    loop
        invariant
            start <= list@.len(),
            start == 0 || list@[start - 1] == ',',
            forall|i: int, j: int|
                #[trigger] is_entry(list@, i, j) && i < start ==> list@.subrange(i, j) != item@,
        decreases list@.len() - start,
    {
        let mut end: usize = start;
        while end < list.len() && list[end] != ','
            invariant
                start <= end <= list@.len(),
                forall|k: int| start <= k < end ==> list@[k] != ',',
            decreases list@.len() - end,
        {
            end += 1;
        }
        assert(is_entry(list@, start as int, end as int));
        if run_equals(list, start, end, item) {
            return true;
        }
        assert forall|i: int, j: int| #[trigger]
            is_entry(list@, i, j) && i <= start implies list@.subrange(i, j) != item@ by {
            if i == start {
                assert(j == end);
            }
        }
        if end == list.len() {
            assert forall|i: int, j: int| #[trigger]
                is_entry(list@, i, j) implies list@.subrange(i, j) != item@ by {
                if i > start {
                    assert(list@[i - 1] == ',');
                }
            }
            return false;
        }
        start = end + 1;
    }
}

/// Whether `chars` holds the characters of `text`.
pub fn is_text(chars: &Vec<char>, text: &str) -> (same: bool)
    ensures
        same == (chars@ == text@),
{
    let other = chars_of(text);
    let same = run_equals(chars, 0, chars.len(), &other);
    assert(chars@.subrange(0, chars@.len() as int) =~= chars@);
    same
}

/// The text of one digit.
fn digit_text(d: u32) -> (text: &'static str)
    requires
        d < 10,
    ensures
        text@ == seq![digit(d as nat)],
{
    proof {
        reveal_strlit("0");
        reveal_strlit("1");
        reveal_strlit("2");
        reveal_strlit("3");
        reveal_strlit("4");
        reveal_strlit("5");
        reveal_strlit("6");
        reveal_strlit("7");
        reveal_strlit("8");
        reveal_strlit("9");
    }
    let text = if d == 0 {
        "0"
    } else if d == 1 {
        "1"
    } else if d == 2 {
        "2"
    } else if d == 3 {
        "3"
    } else if d == 4 {
        "4"
    } else if d == 5 {
        "5"
    } else if d == 6 {
        "6"
    } else if d == 7 {
        "7"
    } else if d == 8 {
        "8"
    } else {
        "9"
    };
    assert(text@ =~= seq![digit(d as nat)]);
    text
}

/// Appends the decimal digits of `n` to `out`.
fn push_decimal(out: &mut String, n: u32)
    ensures
        final(out)@ == old(out)@ + decimal(n as nat),
    decreases n,
{
    if n >= 10 {
        push_decimal(out, n / 10);
    }
    out.append(digit_text(n % 10));
}

/// The decimal digits of `n` as a string.
pub fn decimal_text(n: u32) -> (text: String)
    ensures
        text@ == decimal(n as nat),
{
    let mut text = String::new();
    push_decimal(&mut text, n);
    text
}

/// The text of a flag: `"true"` or `"false"`.
pub fn flag_text(on: bool) -> (text: &'static str)
    ensures
        text@ == flag(on),
{
    if on {
        "true"
    } else {
        "false"
    }
}

} // verus!
