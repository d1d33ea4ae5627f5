//! Small operations on strings that the generator shares.

use vstd::prelude::*;

verus! {

/// The text of one decimal digit.
pub open spec fn spec_digit(d: nat) -> Seq<char> {
    if d == 0 {
        "0"@
    } else if d == 1 {
        "1"@
    } else if d == 2 {
        "2"@
    } else if d == 3 {
        "3"@
    } else if d == 4 {
        "4"@
    } else if d == 5 {
        "5"@
    } else if d == 6 {
        "6"@
    } else if d == 7 {
        "7"@
    } else if d == 8 {
        "8"@
    } else {
        "9"@
    }
}

/// The decimal numeral of `n`, without leading zeros.
pub open spec fn spec_decimal(n: nat) -> Seq<char>
    decreases n,
{
    if n < 10 {
        spec_digit(n)
    } else {
        spec_decimal(n / 10) + spec_digit(n % 10)
    }
}

fn digit(d: u128) -> (r: &'static str)
    requires
        d < 10,
    ensures
        r@ == spec_digit(d as nat),
{
    if d == 0 {
        "0"
    } else if d == 1 {
        "1"
    } else if d == 2 {
        "2"
    } else if d == 3 {
        "3"
    } else if d == 4 {
        "4"
    } else if d == 5 {
        "5"
    } else if d == 6 {
        "6"
    } else if d == 7 {
        "7"
    } else if d == 8 {
        "8"
    } else {
        "9"
    }
}

/// Writes `n` as a decimal numeral.
pub fn decimal(n: u128) -> (r: String)
    ensures
        r@ == spec_decimal(n as nat),
    decreases n,
{
    if n < 10 {
        digit(n).to_string()
    } else {
        let mut s = decimal(n / 10);
        s.append(digit(n % 10));
        s
    }
}

/// A digit is one character, and different digits are different characters.
pub proof fn lemma_digit(d: nat)
    requires
        d < 10,
    ensures
        spec_digit(d).len() == 1,
        spec_digit(d)[0] == if d == 0 {
            '0'
        } else if d == 1 {
            '1'
        } else if d == 2 {
            '2'
        } else if d == 3 {
            '3'
        } else if d == 4 {
            '4'
        } else if d == 5 {
            '5'
        } else if d == 6 {
            '6'
        } else if d == 7 {
            '7'
        } else if d == 8 {
            '8'
        } else {
            '9'
        },
{
    reveal_strlit("0");
    reveal_strlit("1");
    reveal_strlit("2");
    reveal_strlit("3");
    reveal_strlit("4");
    reveal_strlit("5");
    reveal_strlit("6");
    reveal_strlit("7");
    reveal_strlit("8");
    reveal_strlit("9");
}

/// A numeral has a digit for each power of ten that its number reaches.
pub proof fn lemma_decimal_len(n: nat)
    ensures
        spec_decimal(n).len() >= 1,
        n >= 10 ==> spec_decimal(n).len() >= 2,
    decreases n,
{
    if n < 10 {
        lemma_digit(n);
    } else {
        lemma_decimal_len(n / 10);
        lemma_digit(n % 10);
    }
}

/// Different numbers have different numerals.
pub proof fn lemma_decimal_injective(a: nat, b: nat)
    requires
        spec_decimal(a) == spec_decimal(b),
    ensures
        a == b,
    decreases a,
{
    lemma_decimal_len(a);
    lemma_decimal_len(b);
    if a < 10 && b < 10 {
        lemma_digit(a);
        lemma_digit(b);
    } else if a < 10 {
        lemma_digit(a);
    } else if b < 10 {
        lemma_digit(b);
    } else {
        lemma_digit(a % 10);
        lemma_digit(b % 10);
        let pa = spec_decimal(a / 10);
        let pb = spec_decimal(b / 10);
        let da = spec_digit(a % 10);
        let db = spec_digit(b % 10);
        assert(spec_decimal(a) == pa + da);
        assert(spec_decimal(b) == pb + db);
        assert(pa.len() == pb.len());
        assert(da[0] == (pa + da)[pa.len() as int]);
        assert(db[0] == (pb + db)[pb.len() as int]);
        assert(pa =~= (pa + da).subrange(0, pa.len() as int));
        assert(pb =~= (pb + db).subrange(0, pb.len() as int));
        lemma_decimal_injective(a / 10, b / 10);
    }
}

/// A sequence that follows a common prefix is determined by the whole.
pub proof fn lemma_prefix_cancel(p: Seq<char>, a: Seq<char>, b: Seq<char>)
    requires
        p + a == p + b,
    ensures
        a == b,
{
    assert(a =~= (p + a).subrange(p.len() as int, (p + a).len() as int));
    assert(b =~= (p + b).subrange(p.len() as int, (p + b).len() as int));
}

/// A sequence that precedes a common ending is determined by the whole.
pub proof fn lemma_suffix_cancel(a: Seq<char>, b: Seq<char>, s: Seq<char>)
    requires
        a + s == b + s,
    ensures
        a == b,
{
    assert((a + s).len() == a.len() + s.len());
    assert((b + s).len() == b.len() + s.len());
    assert(a.len() == b.len());
    assert(a =~= (a + s).subrange(0, a.len() as int));
    assert(b =~= (b + s).subrange(0, b.len() as int));
}

/// A text holds a character where one of its two parts does.
pub proof fn lemma_concat_contains(a: Seq<char>, b: Seq<char>, c: char)
    ensures
        (a + b).contains(c) <==> a.contains(c) || b.contains(c),
{
    if (a + b).contains(c) {
        let i = choose|i: int| 0 <= i < (a + b).len() && (a + b)[i] == c;
        if i < a.len() {
            assert(a[i] == c);
        } else {
            assert(b[i - a.len()] == c);
        }
    }
    if a.contains(c) {
        let i = choose|i: int| 0 <= i < a.len() && a[i] == c;
        assert((a + b)[i] == c);
    }
    if b.contains(c) {
        let i = choose|i: int| 0 <= i < b.len() && b[i] == c;
        assert((a + b)[a.len() + i] == c);
    }
}

/// Whether `s` is one of the strings of `list`.
pub open spec fn spec_contains(list: Seq<Seq<char>>, s: Seq<char>) -> bool {
    exists|i: int| 0 <= i < list.len() && list[i] == s
}

/// Tells whether `s` is one of the strings of `list`.
pub fn contains(list: &Vec<String>, s: &str) -> (r: bool)
    ensures
        r == spec_contains(list.deep_view(), s@),
{
    let needle = s.to_string();
    let mut i: usize = 0;
    while i < list.len()
        invariant
            i <= list.len(),
            needle@ == s@,
            forall|j: int| 0 <= j < i ==> list.deep_view()[j] != s@,
        decreases list.len() - i,
    {
        if list[i] == needle {
            assert(list.deep_view()[i as int] == s@);
            return true;
        }
        i += 1;
    }
    false
}

/// `list` without the strings that occur earlier in it.
pub open spec fn spec_dedup(list: Seq<Seq<char>>) -> Seq<Seq<char>>
    decreases list.len(),
{
    if list.len() == 0 {
        Seq::empty()
    } else {
        let front = spec_dedup(list.drop_last());
        if spec_contains(front, list.last()) {
            front
        } else {
            front.push(list.last())
        }
    }
}

/// What [`spec_dedup`] gives holds the strings of `list`, each once.
pub proof fn lemma_dedup(list: Seq<Seq<char>>)
    ensures
        forall|s: Seq<char>|
            #![trigger spec_contains(spec_dedup(list), s)]
            #![trigger spec_contains(list, s)]
            spec_contains(spec_dedup(list), s) <==> spec_contains(list, s),
        forall|i: int, j: int|
            0 <= i < j < spec_dedup(list).len() ==> spec_dedup(list)[i] != spec_dedup(list)[j],
    decreases list.len(),
{
    if list.len() > 0 {
        let front_list = list.drop_last();
        let front = spec_dedup(front_list);
        let out = spec_dedup(list);
        lemma_dedup(front_list);
        assert forall|s: Seq<char>|
            #![trigger spec_contains(out, s)]
            #![trigger spec_contains(list, s)]
            spec_contains(out, s) <==> spec_contains(list, s) by {
            assert(spec_contains(front, s) <==> spec_contains(front_list, s));
            if spec_contains(out, s) {
                let i = choose|i: int| 0 <= i < out.len() && out[i] == s;
                if i < front.len() {
                    assert(front[i] == s);
                    assert(spec_contains(front, s));
                    let j = choose|j: int| 0 <= j < front_list.len() && front_list[j] == s;
                    assert(list[j] == s);
                } else {
                    assert(list[list.len() - 1] == s);
                }
            }
            if spec_contains(list, s) {
                let j = choose|j: int| 0 <= j < list.len() && list[j] == s;
                if j < front_list.len() {
                    assert(front_list[j] == s);
                    assert(spec_contains(front_list, s));
                    let i = choose|i: int| 0 <= i < front.len() && front[i] == s;
                    assert(out[i] == s);
                } else if spec_contains(front, s) {
                    let i = choose|i: int| 0 <= i < front.len() && front[i] == s;
                    assert(out[i] == s);
                } else {
                    assert(out[out.len() - 1] == s);
                }
            }
        }
        assert forall|i: int, j: int| 0 <= i < j < out.len() implies out[i] != out[j] by {
            if j == front.len() {
                assert(front[i] == out[i]);
            }
        }
    }
}

/// Drops from `list` the strings that occur earlier in it.
pub fn dedup(list: &Vec<String>) -> (r: Vec<String>)
    ensures
        r.deep_view() == spec_dedup(list.deep_view()),
{
    let ghost all = list.deep_view();
    let mut out: Vec<String> = Vec::new();
    let mut i: usize = 0;
    assert(all.take(0) =~= Seq::<Seq<char>>::empty());
    assert(out.deep_view() =~= Seq::<Seq<char>>::empty());
    while i < list.len()
        invariant
            i <= list.len(),
            all == list.deep_view(),
            out.deep_view() == spec_dedup(all.take(i as int)),
        decreases list.len() - i,
    {
        assert(all.take(i + 1).drop_last() =~= all.take(i as int));
        assert(all.take(i + 1).last() == list[i as int]@);
        if !contains(&out, list[i].as_str()) {
            let ghost before = out.deep_view();
            out.push(list[i].clone());
            assert(out.deep_view() =~= before.push(list[i as int]@));
        }
        i += 1;
    }
    assert(all.take(i as int) =~= all);
    out
}

} // verus!
