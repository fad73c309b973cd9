//! Small verified helpers for building and comparing strings.

use vstd::prelude::*;

verus! {

/// True exactly when `s` and `t` hold the same characters.
pub fn str_is(s: &str, t: &str) -> (r: bool)
    ensures
        r == (s@ == t@),
{
    let a: String = s.to_owned();
    let b: String = t.to_owned();
    a == b
}

/// Concatenation of two string slices.
pub fn cat2(a: &str, b: &str) -> (r: String)
    ensures
        r@ == a@ + b@,
{
    let mut s: String = a.to_owned();
    s.append(b);
    s
}

/// Concatenation of three string slices.
pub fn cat3(a: &str, b: &str, c: &str) -> (r: String)
    ensures
        r@ == a@ + b@ + c@,
{
    let mut s: String = a.to_owned();
    s.append(b);
    s.append(c);
    s
}

/// Concatenation of four string slices.
pub fn cat4(a: &str, b: &str, c: &str, d: &str) -> (r: String)
    ensures
        r@ == a@ + b@ + c@ + d@,
{
    let mut s: String = a.to_owned();
    s.append(b);
    s.append(c);
    s.append(d);
    s
}

/// Concatenation of six string slices.
pub fn cat6(a: &str, b: &str, c: &str, d: &str, e: &str, f: &str) -> (r: String)
    ensures
        r@ == a@ + b@ + c@ + d@ + e@ + f@,
{
    let mut s: String = a.to_owned();
    s.append(b);
    s.append(c);
    s.append(d);
    s.append(e);
    s.append(f);
    s
}

/// The characters of `s`, in order.
pub fn str_chars(s: &str) -> (r: Vec<char>)
    ensures
        r@ == s@,
{
    let n = s.unicode_len();
    let mut out: Vec<char> = Vec::new();
    let mut i: usize = 0;
    while i < n
        invariant
            n == s@.len(),
            i <= n,
            out@ =~= s@.take(i as int),
        decreases n - i,
    {
        out.push(s.get_char(i));
        proof {
            assert(out@ =~= s@.take(i + 1));
        }
        i = i + 1;
    }
    proof {
        assert(s@.take(n as int) =~= s@);
    }
    out
}

/// Relies on String::from_iter over chars: it collects exactly the
/// given characters, in order.
#[verifier::external_body]
pub fn chars_to_string(v: &Vec<char>) -> (r: String)
    ensures
        r@ == v@,
{
    v.iter().collect()
}

/// The items of `items` joined by `sep`: empty for no items, the single
/// item alone, and otherwise each item separated from the next by `sep`.
pub open spec fn spec_join(items: Seq<Seq<char>>, sep: Seq<char>) -> Seq<char>
    decreases items.len(),
{
    if items.len() == 0 {
        Seq::empty()
    } else if items.len() == 1 {
        items[0]
    } else {
        items[0] + sep + spec_join(items.drop_first(), sep)
    }
}

/// Appending one more item to a join extends it by a separator and the item.
pub proof fn lemma_join_push(items: Seq<Seq<char>>, sep: Seq<char>, item: Seq<char>)
    ensures
        items.len() == 0 ==> spec_join(items.push(item), sep) == item,
        items.len() > 0 ==> spec_join(items.push(item), sep) == spec_join(items, sep) + sep
            + item,
    decreases items.len(),
{
    if items.len() == 0 {
        assert(items.push(item)[0] == item);
    } else if items.len() == 1 {
        let whole = items.push(item);
        assert(whole.drop_first() =~= seq![item]);
        assert(seq![item][0] == item);
        assert(spec_join(seq![item], sep) == item);
        assert(spec_join(whole, sep) == whole[0] + sep + spec_join(whole.drop_first(), sep));
        assert(whole[0] == items[0]);
    } else {
        lemma_join_push(items.drop_first(), sep, item);
        assert(items.push(item).drop_first() =~= items.drop_first().push(item));
        assert(spec_join(items, sep) + sep + item == items[0] + sep + (spec_join(
            items.drop_first(),
            sep,
        ) + sep + item)) by {
            assert((items[0] + sep + spec_join(items.drop_first(), sep)) + sep + item =~= items[0]
                + sep + (spec_join(items.drop_first(), sep) + sep + item));
        }
    }
}

/// Joins the strings of `items` with the separator `sep`.
pub fn join_strings(items: &Vec<String>, sep: &str) -> (r: String)
    ensures
        r@ == spec_join(items.deep_view(), sep@),
{
    let mut s = String::new();
    let ghost all = items.deep_view();
    let n = items.len();
    let mut i: usize = 0;
    assert(all.take(0) =~= Seq::empty());
    while i < n
        invariant
            n == items.len(),
            all == items.deep_view(),
            i <= n,
            s@ == spec_join(all.take(i as int), sep@),
        decreases n - i,
    {
        if i > 0 {
            s.append(sep);
        }
        s.append(items[i].as_str());
        proof {
            assert(all.take(i + 1) =~= all.take(i as int).push(all[i as int]));
            lemma_join_push(all.take(i as int), sep@, all[i as int]);
            assert(items.deep_view()[i as int] == items[i as int].deep_view());
        }
        i = i + 1;
    }
    proof {
        assert(all.take(n as int) =~= all);
    }
    s
}

} // verus!
