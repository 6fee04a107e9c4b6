//! What JSON notations determine: texts that are the same were written of the same values.

use crate::json::Json;
use crate::protocol::{Account, ExpectedOutcomes, ParameterValue, Transaction, WorkloadCase};
use crate::sorted_map::SortedMap;
use vstd::prelude::*;

verus! {

/// `c` ends a value that stands inside an array or an object.
pub open spec fn is_stop(c: char) -> bool {
    c == ',' || c == ']' || c == '}'
}

/// `text` is empty or starts with a character that ends a value.
pub open spec fn stops(text: Seq<char>) -> bool {
    text.len() > 0 ==> is_stop(text[0])
}

/// `text` can be the start of a value.
pub open spec fn starts(text: Seq<char>) -> bool {
    text.len() > 0 && !is_stop(text[0])
}

/// What follows two values tells where they end: the values can only be followed by the same text
/// where they are the same.
#[verifier::opaque]
pub open spec fn separable(a: Seq<char>, b: Seq<char>) -> bool {
    forall|x: Seq<char>, y: Seq<char>|
        #![trigger a + x, b + y]
        stops(x) && stops(y) && a + x == b + y ==> a == b && x == y
}

proof fn lemma_cancel(front: Seq<char>, x: Seq<char>, y: Seq<char>)
    requires
        front + x == front + y,
    ensures
        x == y,
{
    assert((front + x).skip(front.len() as int) =~= x);
    assert((front + y).skip(front.len() as int) =~= y);
}

proof fn lemma_split(a: Seq<char>, b: Seq<char>, x: Seq<char>, y: Seq<char>)
    requires
        a + x == b + y,
        a.len() == b.len(),
    ensures
        a == b,
        x == y,
{
    let n = a.len() as int;
    assert((a + x).take(n) =~= a);
    assert((b + y).take(n) =~= b);
    assert((a + x).skip(n) =~= x);
    assert((b + y).skip(n) =~= y);
}

proof fn lemma_regroup(a: Seq<char>, b: Seq<char>, c: Seq<char>, d: Seq<char>)
    ensures
        (a + b + c) + d == a + (b + (c + d)),
        (b + c) + d == b + (c + d),
{
    assert((a + b + c) + d =~= a + (b + (c + d)));
    assert((b + c) + d =~= b + (c + d));
}

/// After the same lead, two values are the same where what follows them stops.
proof fn lemma_peel(lead: Seq<char>, a: Seq<char>, b: Seq<char>, x: Seq<char>, y: Seq<char>)
    requires
        lead + (a + x) == lead + (b + y),
        separable(a, b),
        stops(x),
        stops(y),
    ensures
        a == b,
        x == y,
{
    reveal(separable);
    lemma_cancel(lead, a + x, b + y);
}

/// Texts without a stop in them are told apart by the stop after them.
proof fn lemma_plain_separable(a: Seq<char>, b: Seq<char>)
    requires
        forall|i: int| 0 <= i < a.len() ==> !is_stop(#[trigger] a[i]),
        forall|i: int| 0 <= i < b.len() ==> !is_stop(#[trigger] b[i]),
    ensures
        separable(a, b),
{
    reveal(separable);
    assert forall|x: Seq<char>, y: Seq<char>|
        #![trigger a + x, b + y]
        stops(x) && stops(y) && a + x == b + y implies a == b && x == y by {
        let (u, v) = (a + x, b + y);
        if a.len() < b.len() {
            assert(u[a.len() as int] == x[0]);
            assert(v[a.len() as int] == b[a.len() as int]);
        }
        if b.len() < a.len() {
            assert(v[b.len() as int] == y[0]);
            assert(u[b.len() as int] == a[b.len() as int]);
        }
        lemma_split(a, b, x, y);
    }
}

proof fn lemma_escaped_front(text: Seq<char>)
    requires
        text.len() > 0,
    ensures
        crate::json::escaped_text(text) == crate::json::escaped(text[0])
            + crate::json::escaped_text(text.skip(1)),
    decreases text.len(),
{
    let (front, rest) = (text.drop_last(), text.skip(1));
    if text.len() == 1 {
        assert(crate::json::escaped_text(front) =~= Seq::empty());
        assert(crate::json::escaped_text(rest) =~= Seq::empty());
        assert(crate::json::escaped_text(text) =~= crate::json::escaped(text[0])
            + crate::json::escaped_text(rest));
    } else {
        lemma_escaped_front(front);
        assert(rest.drop_last() =~= front.skip(1));
        assert(crate::json::escaped_text(text) =~= crate::json::escaped(text[0])
            + crate::json::escaped_text(rest));
    }
}

proof fn lemma_escaped_code(c: char, d: char, x: Seq<char>, y: Seq<char>)
    requires
        crate::json::escaped(c) + x == crate::json::escaped(d) + y,
    ensures
        c == d,
        x == y,
{
    let (e, f) = (crate::json::escaped(c), crate::json::escaped(d));
    let (u, v) = (e + x, f + y);
    assert(u[0] == e[0] && v[0] == f[0]);
    if e.len() > 1 && f.len() > 1 {
        assert(u[1] == e[1] && v[1] == f[1]);
        if e.len() == 6 && f.len() == 6 {
            assert(u[4] == e[4] && v[4] == f[4]);
            assert(u[5] == e[5] && v[5] == f[5]);
            crate::hex::lemma_hex_digit(c as int / 16);
            crate::hex::lemma_hex_digit(c as int % 16);
            crate::hex::lemma_hex_digit(d as int / 16);
            crate::hex::lemma_hex_digit(d as int % 16);
        }
    }
    assert(e.len() == f.len());
    lemma_split(e, f, x, y);
}

proof fn lemma_string_body(a: Seq<char>, b: Seq<char>, x: Seq<char>, y: Seq<char>)
    requires
        crate::json::escaped_text(a) + (seq!['"'] + x) == crate::json::escaped_text(b) + (seq!['"']
            + y),
    ensures
        a == b,
        x == y,
    decreases a.len(),
{
    let (u, v) = (
        crate::json::escaped_text(a) + (seq!['"'] + x),
        crate::json::escaped_text(b) + (seq!['"'] + y),
    );
    if a.len() == 0 && b.len() == 0 {
        assert(a =~= b);
        lemma_cancel(Seq::empty(), seq!['"'] + x, seq!['"'] + y);
        lemma_cancel(seq!['"'], x, y);
    } else if a.len() == 0 {
        lemma_escaped_front(b);
        assert(u[0] == '"');
        assert(v[0] == crate::json::escaped(b[0])[0]);
    } else if b.len() == 0 {
        lemma_escaped_front(a);
        assert(v[0] == '"');
        assert(u[0] == crate::json::escaped(a[0])[0]);
    } else {
        lemma_escaped_front(a);
        lemma_escaped_front(b);
        let (s, t) = (
            crate::json::escaped_text(a.skip(1)) + (seq!['"'] + x),
            crate::json::escaped_text(b.skip(1)) + (seq!['"'] + y),
        );
        assert(u =~= crate::json::escaped(a[0]) + s);
        assert(v =~= crate::json::escaped(b[0]) + t);
        lemma_escaped_code(a[0], b[0], s, t);
        lemma_string_body(a.skip(1), b.skip(1), x, y);
        assert(a =~= seq![a[0]] + a.skip(1));
        assert(b =~= seq![b[0]] + b.skip(1));
    }
}

/// JSON strings determine the texts that they are written for.
pub proof fn lemma_string(a: Seq<char>, b: Seq<char>)
    ensures
        separable(crate::json::string_json(a), crate::json::string_json(b)),
        starts(crate::json::string_json(a)),
        crate::json::string_json(a) == crate::json::string_json(b) ==> a == b,
{
    reveal(separable);
    let (s, t) = (crate::json::string_json(a), crate::json::string_json(b));
    lemma_string_closed(a, b);
    if s == t {
        assert(s + Seq::<char>::empty() == t + Seq::<char>::empty());
    }
}

proof fn lemma_decimal_digits(n: nat)
    ensures
        crate::text::decimal_text(n).len() > 0,
        forall|i: int|
            0 <= i < crate::text::decimal_text(n).len() ==> '0'
                <= #[trigger] crate::text::decimal_text(n)[i] <= '9',
    decreases n,
{
    if n >= 10 {
        lemma_decimal_digits(n / 10);
    }
}

proof fn lemma_decimal_injective(m: nat, n: nat)
    requires
        crate::text::decimal_text(m) == crate::text::decimal_text(n),
    ensures
        m == n,
    decreases m,
{
    let (s, t) = (crate::text::decimal_text(m), crate::text::decimal_text(n));
    lemma_decimal_digits(m / 10);
    lemma_decimal_digits(n / 10);
    assert(s.last() == crate::text::decimal_digit(m % 10));
    assert(t.last() == crate::text::decimal_digit(n % 10));
    if m >= 10 && n >= 10 {
        assert(s.drop_last() =~= crate::text::decimal_text(m / 10));
        assert(t.drop_last() =~= crate::text::decimal_text(n / 10));
        lemma_decimal_injective(m / 10, n / 10);
    } else if m >= 10 {
        assert(t.len() == 1);
    } else if n >= 10 {
        assert(s.len() == 1);
    }
}

/// The number that decimal digits stand for.
pub open spec fn decimal_value(digits: Seq<char>) -> int {
    digits.fold_left(0int, |value: int, digit: char| 10 * value + (digit as int - '0' as int))
}

/// A number in decimal notation has no leading zero, and its digits stand for it.
pub proof fn law_decimal_digits_stand_for_the_number(n: nat)
    ensures
        decimal_value(crate::text::decimal_text(n)) == n,
        crate::text::decimal_text(n)[0] == '0' ==> n == 0,
        forall|i: int|
            0 <= i < crate::text::decimal_text(n).len() ==> '0'
                <= #[trigger] crate::text::decimal_text(n)[i] <= '9',
    decreases n,
{
    reveal_with_fuel(Seq::fold_left, 2);
    lemma_decimal_digits(n);
    let text = crate::text::decimal_text(n);
    if n >= 10 {
        law_decimal_digits_stand_for_the_number(n / 10);
        lemma_decimal_digits(n / 10);
        assert(text.drop_last() =~= crate::text::decimal_text(n / 10));
        assert(text.last() == crate::text::decimal_digit(n % 10));
        assert(text[0] == crate::text::decimal_text(n / 10)[0]);
    } else {
        assert(text.drop_last() =~= Seq::empty());
        assert(text.last() == crate::text::decimal_digit(n));
    }
}

/// Decimal notations determine numbers.
pub proof fn lemma_number(m: u64, n: u64)
    ensures
        separable(m.json(), n.json()),
        starts(m.json()),
        m.json() == n.json() ==> m == n,
{
    lemma_decimal_digits(m as nat);
    lemma_decimal_digits(n as nat);
    lemma_plain_separable(m.json(), n.json());
    if m.json() == n.json() {
        lemma_decimal_injective(m as nat, n as nat);
    }
}

/// The notations of optional numbers determine them.
pub proof fn lemma_optional_number(m: Option<u64>, n: Option<u64>)
    ensures
        separable(m.json(), n.json()),
        starts(m.json()),
        m.json() == n.json() ==> m == n,
{
    reveal_strlit("null");
    if m is Some {
        lemma_decimal_digits(m->0 as nat);
    }
    if n is Some {
        lemma_decimal_digits(n->0 as nat);
    }
    lemma_plain_separable(m.json(), n.json());
    if m.json() == n.json() {
        assert(m.json()[0] == n.json()[0]);
        if m is Some && n is Some {
            lemma_decimal_injective(m->0 as nat, n->0 as nat);
        }
    }
}

/// The notations of truth values determine them.
pub proof fn lemma_bool(a: bool, b: bool)
    ensures
        separable(a.json(), b.json()),
        starts(a.json()),
        a.json() == b.json() ==> a == b,
{
    reveal_strlit("true");
    reveal_strlit("false");
    lemma_plain_separable(a.json(), b.json());
    assert("true"@.len() == 4);
    assert("false"@.len() == 5);
}

/// The notations of optional texts determine them.
pub proof fn lemma_optional_text(a: Option<Seq<char>>, b: Option<Seq<char>>)
    ensures
        separable(crate::json::optional_text_json(a), crate::json::optional_text_json(b)),
        starts(crate::json::optional_text_json(a)),
        crate::json::optional_text_json(a) == crate::json::optional_text_json(b) ==> a == b,
{
    reveal_strlit("null");
    let (s, t) = (crate::json::optional_text_json(a), crate::json::optional_text_json(b));
    match (a, b) {
        (Some(a), Some(b)) => lemma_string(a, b),
        (None, None) => lemma_plain_separable(s, t),
        _ => {
            if a is Some {
                lemma_string(a->0, a->0);
            }
            if b is Some {
                lemma_string(b->0, b->0);
            }
            lemma_first_separable(s, t);
        },
    }
}

/// Values that start with different characters are told apart.
proof fn lemma_first_separable(a: Seq<char>, b: Seq<char>)
    requires
        a.len() > 0,
        b.len() > 0,
        a[0] != b[0],
    ensures
        separable(a, b),
        a != b,
{
    reveal(separable);
    assert forall|x: Seq<char>, y: Seq<char>|
        #![trigger a + x, b + y]
        a + x != b + y by {
        assert((a + x)[0] == a[0]);
        assert((b + y)[0] == b[0]);
    }
}

/// Texts one after the other, with commas between.
pub open spec fn list_text(items: Seq<Seq<char>>) -> Seq<char>
    decreases items.len(),
{
    if items.len() == 0 {
        Seq::empty()
    } else if items.len() == 1 {
        items[0]
    } else {
        items[0] + (seq![','] + list_text(items.skip(1)))
    }
}

proof fn lemma_list_back(items: Seq<Seq<char>>)
    requires
        items.len() > 1,
    ensures
        list_text(items) == list_text(items.drop_last()) + seq![','] + items.last(),
    decreases items.len(),
{
    let (front, rest) = (items.drop_last(), items.skip(1));
    if items.len() == 2 {
        assert(list_text(rest) == items[1]);
        assert(list_text(front) == items[0]);
        assert(list_text(items) =~= list_text(front) + seq![','] + items.last());
    } else {
        lemma_list_back(rest);
        assert(rest.drop_last() =~= front.skip(1));
        assert(list_text(items) =~= list_text(front) + seq![','] + items.last());
    }
}

/// Joined notations are the list of the notations.
proof fn lemma_joined_list<T>(items: Seq<T>, notation: spec_fn(T) -> Seq<char>)
    ensures
        crate::json::joined(items, ","@, notation) == list_text(items.map_values(notation)),
    decreases items.len(),
{
    reveal_strlit(",");
    assert(","@ =~= seq![',']);
    let texts = items.map_values(notation);
    if items.len() == 1 {
        assert(texts[0] == notation(items[0]));
    } else if items.len() > 1 {
        lemma_joined_list(items.drop_last(), notation);
        lemma_list_back(texts);
        assert(texts.drop_last() =~= items.drop_last().map_values(notation));
    }
}

proof fn lemma_lists(
    a: Seq<Seq<char>>,
    b: Seq<Seq<char>>,
    close: char,
    x: Seq<char>,
    y: Seq<char>,
)
    requires
        close == ']' || close == '}',
        forall|i: int| 0 <= i < a.len() ==> starts(#[trigger] a[i]),
        forall|i: int| 0 <= i < b.len() ==> starts(#[trigger] b[i]),
        forall|i: int| 0 <= i < a.len() && i < b.len() ==> separable(#[trigger] a[i], b[i]),
        list_text(a) + (seq![close] + x) == list_text(b) + (seq![close] + y),
    ensures
        a == b,
        x == y,
    decreases a.len(),
{
    let (u, v) = (list_text(a) + (seq![close] + x), list_text(b) + (seq![close] + y));
    if a.len() == 0 && b.len() == 0 {
        assert(a =~= b);
        lemma_cancel(Seq::empty(), seq![close] + x, seq![close] + y);
        lemma_cancel(seq![close], x, y);
    } else if a.len() == 0 {
        assert(starts(b[0]));
        assert(u[0] == close);
        assert(v[0] == b[0][0]);
    } else if b.len() == 0 {
        assert(starts(a[0]));
        assert(v[0] == close);
        assert(u[0] == a[0][0]);
    } else {
        let s = if a.len() == 1 {
            seq![close] + x
        } else {
            seq![','] + (list_text(a.skip(1)) + (seq![close] + x))
        };
        let t = if b.len() == 1 {
            seq![close] + y
        } else {
            seq![','] + (list_text(b.skip(1)) + (seq![close] + y))
        };
        assert(u =~= a[0] + s);
        assert(v =~= b[0] + t);
        assert(separable(a[0], b[0]));
        assert(s[0] == if a.len() == 1 {
            close
        } else {
            ','
        });
        assert(t[0] == if b.len() == 1 {
            close
        } else {
            ','
        });
        assert(a[0] == b[0] && s == t) by {
            reveal(separable);
            assert(a[0] + s == b[0] + t);
        }
        if a.len() == 1 {
            lemma_cancel(seq![close], x, y);
            assert(a =~= b);
        } else {
            let (p, q) = (a.skip(1), b.skip(1));
            lemma_cancel(
                seq![','],
                list_text(p) + (seq![close] + x),
                list_text(q) + (seq![close] + y),
            );
            assert forall|i: int| 0 <= i < p.len() implies starts(#[trigger] p[i]) by {
                assert(p[i] == a[i + 1]);
            }
            assert forall|i: int| 0 <= i < q.len() implies starts(#[trigger] q[i]) by {
                assert(q[i] == b[i + 1]);
            }
            assert forall|i: int| 0 <= i < p.len() && i < q.len() implies separable(
                #[trigger] p[i],
                q[i],
            ) by {
                assert(p[i] == a[i + 1] && q[i] == b[i + 1]);
            }
            lemma_lists(p, q, close, x, y);
            assert(a =~= seq![a[0]] + p);
            assert(b =~= seq![b[0]] + q);
        }
    }
}

/// The notations of the items of two sequences can be told apart.
pub open spec fn items_separable<T>(
    a: Seq<T>,
    b: Seq<T>,
    notation: spec_fn(T) -> Seq<char>,
) -> bool {
    &&& forall|i: int| 0 <= i < a.len() ==> starts(notation(#[trigger] a[i]))
    &&& forall|i: int| 0 <= i < b.len() ==> starts(notation(#[trigger] b[i]))
    &&& forall|i: int|
        0 <= i < a.len() && i < b.len() ==> separable(notation(#[trigger] a[i]), notation(b[i]))
}

proof fn lemma_bracketed<T>(
    a: Seq<T>,
    b: Seq<T>,
    notation: spec_fn(T) -> Seq<char>,
    open: Seq<char>,
    close: char,
)
    requires
        close == ']' || close == '}',
        open == seq!['['] || open == seq!['{'],
        items_separable(a, b, notation),
    ensures
        ({
            let s = open + crate::json::joined(a, ","@, notation) + seq![close];
            let t = open + crate::json::joined(b, ","@, notation) + seq![close];
            separable(s, t) && starts(s) && (s == t ==> a.map_values(notation) == b.map_values(
                notation,
            ))
        }),
{
    reveal(separable);
    let (p, q) = (a.map_values(notation), b.map_values(notation));
    lemma_joined_list(a, notation);
    lemma_joined_list(b, notation);
    let s = open + crate::json::joined(a, ","@, notation) + seq![close];
    let t = open + crate::json::joined(b, ","@, notation) + seq![close];
    assert(s[0] == open[0]);
    assert forall|i: int| 0 <= i < p.len() implies starts(#[trigger] p[i]) by {
        assert(p[i] == notation(a[i]));
    }
    assert forall|i: int| 0 <= i < q.len() implies starts(#[trigger] q[i]) by {
        assert(q[i] == notation(b[i]));
    }
    assert forall|i: int| 0 <= i < p.len() && i < q.len() implies separable(
        #[trigger] p[i],
        q[i],
    ) by {
        assert(p[i] == notation(a[i]) && q[i] == notation(b[i]));
    }
    assert forall|x: Seq<char>, y: Seq<char>|
        #![trigger s + x, t + y]
        s + x == t + y implies p == q && x == y by {
        assert(s + x =~= open + (list_text(p) + (seq![close] + x)));
        assert(t + y =~= open + (list_text(q) + (seq![close] + y)));
        lemma_cancel(
            open,
            list_text(p) + (seq![close] + x),
            list_text(q) + (seq![close] + y),
        );
        lemma_lists(p, q, close, x, y);
    }
    if p == q {
        assert(crate::json::joined(a, ","@, notation) == crate::json::joined(b, ","@, notation));
    }
    if s == t {
        assert(s + Seq::<char>::empty() == t + Seq::<char>::empty());
    }
}

/// The notations of arrays determine those of their items.
pub proof fn lemma_array<T>(a: Seq<T>, b: Seq<T>, notation: spec_fn(T) -> Seq<char>)
    requires
        items_separable(a, b, notation),
    ensures
        separable(crate::json::array_json(a, notation), crate::json::array_json(b, notation)),
        starts(crate::json::array_json(a, notation)),
        crate::json::array_json(a, notation) == crate::json::array_json(b, notation) ==> a.len()
            == b.len() && forall|i: int|
            0 <= i < a.len() ==> notation(#[trigger] a[i]) == notation(b[i]),
{
    reveal_strlit("[");
    reveal_strlit("]");
    assert("["@ =~= seq!['[']);
    assert("]"@ =~= seq![']']);
    lemma_bracketed(a, b, notation, "["@, ']');
    if crate::json::array_json(a, notation) == crate::json::array_json(b, notation) {
        let (p, q) = (a.map_values(notation), b.map_values(notation));
        assert(p.len() == a.len() && q.len() == b.len());
        assert forall|i: int| 0 <= i < a.len() implies notation(#[trigger] a[i]) == notation(
            b[i],
        ) by {
            assert(p[i] == notation(a[i]) && q[i] == notation(b[i]));
        }
    }
}

proof fn lemma_entry(
    j: Seq<char>,
    k: Seq<char>,
    a: Seq<char>,
    b: Seq<char>,
)
    requires
        separable(a, b),
    ensures
        ({
            let s = crate::json::string_json(j) + ":"@ + a;
            let t = crate::json::string_json(k) + ":"@ + b;
            separable(s, t) && starts(s) && (s == t ==> j == k && a == b)
        }),
{
    reveal(separable);
    lemma_string_closed(j, k);
    let (p, q) = (crate::json::string_json(j), crate::json::string_json(k));
    let (s, t) = (p + ":"@ + a, q + ":"@ + b);
    assert(s[0] == p[0]);
    assert forall|x: Seq<char>, y: Seq<char>|
        #![trigger s + x, t + y]
        stops(x) && stops(y) && s + x == t + y implies j == k && a == b && x == y by {
        assert(s + x =~= p + (":"@ + (a + x)));
        assert(t + y =~= q + (":"@ + (b + y)));
        assert(p + (":"@ + (a + x)) == q + (":"@ + (b + y)));
        lemma_cancel(":"@, a + x, b + y);
    }
    if s == t {
        assert(s + Seq::<char>::empty() == t + Seq::<char>::empty());
    }
}

/// JSON strings end where they end, whatever follows them.
proof fn lemma_string_closed(a: Seq<char>, b: Seq<char>)
    ensures
        starts(crate::json::string_json(a)),
        forall|x: Seq<char>, y: Seq<char>|
            #![trigger crate::json::string_json(a) + x, crate::json::string_json(b) + y]
            crate::json::string_json(a) + x == crate::json::string_json(b) + y ==> a == b && x
                == y,
{
    let (s, t) = (crate::json::string_json(a), crate::json::string_json(b));
    assert forall|x: Seq<char>, y: Seq<char>|
        #![trigger s + x, t + y]
        s + x == t + y implies a == b && x == y by {
        assert(s + x =~= seq!['"'] + (crate::json::escaped_text(a) + (seq!['"'] + x)));
        assert(t + y =~= seq!['"'] + (crate::json::escaped_text(b) + (seq!['"'] + y)));
        lemma_cancel(
            seq!['"'],
            crate::json::escaped_text(a) + (seq!['"'] + x),
            crate::json::escaped_text(b) + (seq!['"'] + y),
        );
        lemma_string_body(a, b, x, y);
    }
}

/// The notations of the values of two maps can be told apart.
pub open spec fn values_separable<T>(
    a: Seq<(Seq<char>, T)>,
    b: Seq<(Seq<char>, T)>,
    notation: spec_fn(T) -> Seq<char>,
) -> bool {
    forall|i: int|
        0 <= i < a.len() && i < b.len() ==> separable(
            notation((#[trigger] a[i]).1),
            notation(b[i].1),
        )
}

/// The notations of objects determine the keys and the notations of the values.
pub proof fn lemma_object<T>(
    a: Seq<(Seq<char>, T)>,
    b: Seq<(Seq<char>, T)>,
    notation: spec_fn(T) -> Seq<char>,
)
    requires
        values_separable(a, b, notation),
    ensures
        separable(crate::json::object_json(a, notation), crate::json::object_json(b, notation)),
        starts(crate::json::object_json(a, notation)),
        crate::json::object_json(a, notation) == crate::json::object_json(b, notation) ==> a.len()
            == b.len() && forall|i: int|
            0 <= i < a.len() ==> (#[trigger] a[i]).0 == b[i].0 && notation(a[i].1) == notation(
                b[i].1,
            ),
{
    reveal_strlit("{");
    reveal_strlit("}");
    assert("{"@ =~= seq!['{']);
    assert("}"@ =~= seq!['}']);
    let entry_notation = |entry: (Seq<char>, T)|
        crate::json::string_json(entry.0) + ":"@ + notation(entry.1);
    assert forall|i: int| 0 <= i < a.len() implies starts(entry_notation(#[trigger] a[i])) by {
        lemma_entry_starts(a[i].0, notation(a[i].1));
    }
    assert forall|i: int| 0 <= i < b.len() implies starts(entry_notation(#[trigger] b[i])) by {
        lemma_entry_starts(b[i].0, notation(b[i].1));
    }
    assert forall|i: int| 0 <= i < a.len() && i < b.len() implies separable(
        entry_notation(#[trigger] a[i]),
        entry_notation(b[i]),
    ) by {
        assert(separable(notation(a[i].1), notation(b[i].1)));
        lemma_entry(a[i].0, b[i].0, notation(a[i].1), notation(b[i].1));
    }
    lemma_bracketed(a, b, entry_notation, "{"@, '}');
    if crate::json::object_json(a, notation) == crate::json::object_json(b, notation) {
        let (p, q) = (a.map_values(entry_notation), b.map_values(entry_notation));
        assert(p.len() == a.len() && q.len() == b.len());
        assert forall|i: int| 0 <= i < a.len() implies (#[trigger] a[i]).0 == b[i].0 && notation(
            a[i].1,
        ) == notation(b[i].1) by {
            assert(p[i] == entry_notation(a[i]) && q[i] == entry_notation(b[i]));
            assert(separable(notation(a[i].1), notation(b[i].1)));
            lemma_entry(a[i].0, b[i].0, notation(a[i].1), notation(b[i].1));
        }
    }
}

proof fn lemma_entry_starts(key: Seq<char>, value: Seq<char>)
    ensures
        starts(crate::json::string_json(key) + ":"@ + value),
{
    lemma_string(key, key);
    assert((crate::json::string_json(key) + ":"@ + value)[0] == crate::json::string_json(key)[0]);
}

/// Values one after the other, each after its lead.
pub open spec fn members_text(leads: Seq<Seq<char>>, values: Seq<Seq<char>>) -> Seq<char>
    decreases leads.len(),
{
    if leads.len() == 0 {
        Seq::empty()
    } else {
        members_text(leads.drop_last(), values.drop_last()) + leads.last() + values.last()
    }
}

proof fn lemma_first_member(lead: Seq<char>, value: Seq<char>)
    ensures
        members_text(seq![lead], seq![value]) == lead + value,
{
    let (leads, values) = (seq![lead], seq![value]);
    assert(members_text(leads.drop_last(), values.drop_last()) =~= Seq::empty());
    assert(leads.last() == lead && values.last() == value);
    assert(Seq::<char>::empty() + lead =~= lead);
}

broadcast proof fn lemma_next_member(
    leads: Seq<Seq<char>>,
    values: Seq<Seq<char>>,
    lead: Seq<char>,
    value: Seq<char>,
)
    requires
        leads.len() > 0,
    ensures
        #[trigger] members_text(leads.push(lead), values.push(value)) == members_text(leads, values)
            + lead + value,
{
    assert(leads.push(lead).drop_last() =~= leads);
    assert(values.push(value).drop_last() =~= values);
}

/// The leads of members after the first start with what ends a value.
pub open spec fn are_leads(leads: Seq<Seq<char>>) -> bool {
    forall|k: int|
        1 <= k < leads.len() ==> (#[trigger] leads[k]).len() > 0 && is_stop(leads[k][0])
}

proof fn lemma_members(
    leads: Seq<Seq<char>>,
    a: Seq<Seq<char>>,
    b: Seq<Seq<char>>,
    x: Seq<char>,
    y: Seq<char>,
)
    requires
        leads.len() == a.len(),
        leads.len() == b.len(),
        are_leads(leads),
        forall|k: int| 0 <= k < a.len() ==> separable(#[trigger] a[k], b[k]),
        stops(x),
        stops(y),
        members_text(leads, a) + x == members_text(leads, b) + y,
    ensures
        a == b,
        x == y,
    decreases leads.len(),
{
    if leads.len() == 0 {
        lemma_cancel(Seq::empty(), x, y);
        assert(a =~= b);
    } else {
        let front = leads.drop_last();
        let (p, q) = (a.drop_last(), b.drop_last());
        let (lead, u, v) = (leads.last(), a.last(), b.last());
        let (s, t) = (members_text(front, p), members_text(front, q));
        lemma_regroup(s, lead, u, x);
        lemma_regroup(t, lead, v, y);
        assert(separable(a[a.len() - 1], b[b.len() - 1]));
        if leads.len() == 1 {
            assert(s =~= Seq::empty());
            assert(t =~= Seq::empty());
            lemma_cancel(s, lead + (u + x), lead + (v + y));
            lemma_peel(lead, u, v, x, y);
            assert(p =~= q);
        } else {
            assert(leads[leads.len() - 1] == lead);
            assert((lead + (u + x))[0] == lead[0]);
            assert((lead + (v + y))[0] == lead[0]);
            assert forall|k: int| 1 <= k < front.len() implies (#[trigger] front[k]).len() > 0
                && is_stop(front[k][0]) by {
                assert(front[k] == leads[k]);
            }
            assert forall|k: int| 0 <= k < p.len() implies separable(#[trigger] p[k], q[k]) by {
                assert(p[k] == a[k] && q[k] == b[k]);
            }
            lemma_members(front, p, q, lead + (u + x), lead + (v + y));
            lemma_peel(lead, u, v, x, y);
        }
        assert(a =~= p.push(u));
        assert(b =~= q.push(v));
    }
}

/// Members determine their values, where the values can be told apart.
proof fn lemma_struct(
    leads: Seq<Seq<char>>,
    a: Seq<Seq<char>>,
    b: Seq<Seq<char>>,
    s: Seq<char>,
    t: Seq<char>,
)
    requires
        leads.len() > 0,
        leads.len() == a.len(),
        leads.len() == b.len(),
        are_leads(leads),
        forall|k: int| 0 <= k < a.len() ==> separable(#[trigger] a[k], b[k]),
        s == members_text(leads, a) + "}"@,
        t == members_text(leads, b) + "}"@,
    ensures
        separable(s, t),
        s == t ==> a == b,
{
    reveal(separable);
    reveal_strlit("}");
    assert forall|x: Seq<char>, y: Seq<char>|
        #![trigger s + x, t + y]
        s + x == t + y implies a == b && x == y by {
        lemma_regroup(Seq::empty(), members_text(leads, a), "}"@, x);
        lemma_regroup(Seq::empty(), members_text(leads, b), "}"@, y);
        assert(("}"@ + x)[0] == '}');
        assert(("}"@ + y)[0] == '}');
        lemma_members(leads, a, b, "}"@ + x, "}"@ + y);
        lemma_cancel("}"@, x, y);
    }
    if s == t {
        assert(s + Seq::<char>::empty() == t + Seq::<char>::empty());
    }
}

proof fn lemma_topics(a: Seq<Seq<char>>, b: Seq<Seq<char>>)
    ensures
        ({
            let notation = |topic: Seq<char>| crate::json::string_json(topic);
            &&& separable(
                crate::json::array_json(a, notation),
                crate::json::array_json(b, notation),
            )
            &&& crate::json::array_json(a, notation) == crate::json::array_json(b, notation) ==> a
                == b
        }),
{
    let notation = |topic: Seq<char>| crate::json::string_json(topic);
    assert forall|i: int| 0 <= i < a.len() implies starts(notation(#[trigger] a[i])) by {
        lemma_string(a[i], a[i]);
    }
    assert forall|i: int| 0 <= i < b.len() implies starts(notation(#[trigger] b[i])) by {
        lemma_string(b[i], b[i]);
    }
    assert forall|i: int| 0 <= i < a.len() && i < b.len() implies separable(
        notation(#[trigger] a[i]),
        notation(b[i]),
    ) by {
        lemma_string(a[i], b[i]);
    }
    lemma_array(a, b, notation);
    if crate::json::array_json(a, notation) == crate::json::array_json(b, notation) {
        assert forall|i: int| 0 <= i < a.len() implies a[i] == b[i] by {
            assert(notation(a[i]) == notation(b[i]));
            lemma_string(a[i], b[i]);
        }
        assert(a =~= b);
    }
}

/// The notations of logs determine them.
pub proof fn lemma_log(a: crate::protocol::LogModel, b: crate::protocol::LogModel)
    ensures
        separable(crate::json::log_json(a), crate::json::log_json(b)),
        starts(crate::json::log_json(a)),
        crate::json::log_json(a) == crate::json::log_json(b) ==> a == b,
{
    reveal_strlit("{\"address\":");
    reveal_strlit(",\"topics\":");
    reveal_strlit(",\"data\":");
    broadcast use lemma_next_member;

    let leads = seq!["{\"address\":"@]
        .push(",\"topics\":"@)
        .push(",\"data\":"@);
    let u = seq![crate::json::string_json(a.address)]
        .push(crate::json::array_json(a.topics, |topic: Seq<char>| crate::json::string_json(topic)))
        .push(crate::json::string_json(a.data));
    let v = seq![crate::json::string_json(b.address)]
        .push(crate::json::array_json(b.topics, |topic: Seq<char>| crate::json::string_json(topic)))
        .push(crate::json::string_json(b.data));
    lemma_string(a.address, b.address);
    lemma_string(a.data, b.data);
    lemma_topics(a.topics, b.topics);

    lemma_first_member("{\"address\":"@, crate::json::string_json(a.address));
    lemma_first_member("{\"address\":"@, crate::json::string_json(b.address));
    let (s, t) = (crate::json::log_json(a), crate::json::log_json(b));
    assert(s == members_text(leads, u) + "}"@);
    assert(t == members_text(leads, v) + "}"@);
    assert forall|k: int| 0 <= k < 3 implies separable(#[trigger] u[k], v[k]) by {}
    lemma_struct(leads, u, v, s, t);
    assert(s[0] == leads[0][0]);
    if s == t {
        assert(u[0] == v[0]);
        assert(u[1] == v[1]);
        assert(u[2] == v[2]);
    }
}

proof fn lemma_logs(a: Seq<crate::protocol::LogModel>, b: Seq<crate::protocol::LogModel>)
    ensures
        ({
            let notation = |log: crate::protocol::LogModel| crate::json::log_json(log);
            &&& separable(
                crate::json::array_json(a, notation),
                crate::json::array_json(b, notation),
            )
            &&& starts(crate::json::array_json(a, notation))
            &&& crate::json::array_json(a, notation) == crate::json::array_json(b, notation) ==> a
                == b
        }),
{
    let notation = |log: crate::protocol::LogModel| crate::json::log_json(log);
    assert forall|i: int| 0 <= i < a.len() implies starts(notation(#[trigger] a[i])) by {
        lemma_log(a[i], a[i]);
    }
    assert forall|i: int| 0 <= i < b.len() implies starts(notation(#[trigger] b[i])) by {
        lemma_log(b[i], b[i]);
    }
    assert forall|i: int| 0 <= i < a.len() && i < b.len() implies separable(
        notation(#[trigger] a[i]),
        notation(b[i]),
    ) by {
        lemma_log(a[i], b[i]);
    }
    lemma_array(a, b, notation);
    if crate::json::array_json(a, notation) == crate::json::array_json(b, notation) {
        assert forall|i: int| 0 <= i < a.len() implies a[i] == b[i] by {
            assert(notation(a[i]) == notation(b[i]));
            lemma_log(a[i], b[i]);
        }
        assert(a =~= b);
    }
}

/// The notations of receipts determine them.
pub proof fn lemma_receipt(a: crate::protocol::ReceiptModel, b: crate::protocol::ReceiptModel)
    ensures
        separable(crate::json::receipt_json(a), crate::json::receipt_json(b)),
        starts(crate::json::receipt_json(a)),
        crate::json::receipt_json(a) == crate::json::receipt_json(b) ==> a == b,
{
    reveal_strlit("{\"success\":");
    reveal_strlit(",\"logs\":");
    broadcast use lemma_next_member;

    let leads = seq!["{\"success\":"@]
        .push(",\"logs\":"@);
    let u = seq![a.success.json()]
        .push(
            crate::json::array_json(
                a.logs,
                |log: crate::protocol::LogModel| crate::json::log_json(log),
            ),
        );
    let v = seq![b.success.json()]
        .push(
            crate::json::array_json(
                b.logs,
                |log: crate::protocol::LogModel| crate::json::log_json(log),
            ),
        );
    lemma_bool(a.success, b.success);
    lemma_logs(a.logs, b.logs);

    lemma_first_member("{\"success\":"@, a.success.json());
    lemma_first_member("{\"success\":"@, b.success.json());
    let (s, t) = (crate::json::receipt_json(a), crate::json::receipt_json(b));
    assert(s == members_text(leads, u) + "}"@);
    assert(t == members_text(leads, v) + "}"@);
    assert forall|k: int| 0 <= k < 2 implies separable(#[trigger] u[k], v[k]) by {}
    lemma_struct(leads, u, v, s, t);
    assert(s[0] == leads[0][0]);
    if s == t {
        assert(u[0] == v[0]);
        assert(u[1] == v[1]);
    }
}

proof fn lemma_receipts(
    a: Seq<crate::protocol::ReceiptModel>,
    b: Seq<crate::protocol::ReceiptModel>,
)
    ensures
        ({
            let notation = |receipt: crate::protocol::ReceiptModel|
                crate::json::receipt_json(receipt);
            &&& separable(
                crate::json::array_json(a, notation),
                crate::json::array_json(b, notation),
            )
            &&& starts(crate::json::array_json(a, notation))
            &&& crate::json::array_json(a, notation) == crate::json::array_json(b, notation) ==> a
                == b
        }),
{
    let notation = |receipt: crate::protocol::ReceiptModel| crate::json::receipt_json(receipt);
    assert forall|i: int| 0 <= i < a.len() implies starts(notation(#[trigger] a[i])) by {
        lemma_receipt(a[i], a[i]);
    }
    assert forall|i: int| 0 <= i < b.len() implies starts(notation(#[trigger] b[i])) by {
        lemma_receipt(b[i], b[i]);
    }
    assert forall|i: int| 0 <= i < a.len() && i < b.len() implies separable(
        notation(#[trigger] a[i]),
        notation(b[i]),
    ) by {
        lemma_receipt(a[i], b[i]);
    }
    lemma_array(a, b, notation);
    if crate::json::array_json(a, notation) == crate::json::array_json(b, notation) {
        assert forall|i: int| 0 <= i < a.len() implies a[i] == b[i] by {
            assert(notation(a[i]) == notation(b[i]));
            lemma_receipt(a[i], b[i]);
        }
        assert(a =~= b);
    }
}

/// The notations of accounts in a snapshot determine them.
pub proof fn lemma_account_state(a: crate::state::AccountModel, b: crate::state::AccountModel)
    ensures
        separable(crate::state::account_json(Some(a)), crate::state::account_json(Some(b))),
        starts(crate::state::account_json(Some(a))),
        crate::state::account_json(Some(a)) == crate::state::account_json(Some(b)) ==> a == b,
{
    reveal_strlit("{\"balance\":");
    reveal_strlit(",\"nonce\":");
    reveal_strlit(",\"code_hash\":");
    broadcast use lemma_next_member;

    let leads = seq!["{\"balance\":"@]
        .push(",\"nonce\":"@)
        .push(",\"code_hash\":"@);
    let u = seq![crate::json::string_json(a.balance)]
        .push(a.nonce.json())
        .push(crate::json::string_json(a.code_hash));
    let v = seq![crate::json::string_json(b.balance)]
        .push(b.nonce.json())
        .push(crate::json::string_json(b.code_hash));
    lemma_string(a.balance, b.balance);
    lemma_number(a.nonce, b.nonce);
    lemma_string(a.code_hash, b.code_hash);

    lemma_first_member("{\"balance\":"@, crate::json::string_json(a.balance));
    lemma_first_member("{\"balance\":"@, crate::json::string_json(b.balance));
    let (s, t) = (crate::state::account_json(Some(a)), crate::state::account_json(Some(b)));
    assert(s == members_text(leads, u) + "}"@);
    assert(t == members_text(leads, v) + "}"@);
    assert forall|k: int| 0 <= k < 3 implies separable(#[trigger] u[k], v[k]) by {}
    lemma_struct(leads, u, v, s, t);
    assert(s[0] == leads[0][0]);
    if s == t {
        assert(u[0] == v[0]);
        assert(u[1] == v[1]);
        assert(u[2] == v[2]);
    }
}

/// The notations of accounts in a snapshot, with or without a state, determine them.
pub proof fn lemma_account(
    a: Option<crate::state::AccountModel>,
    b: Option<crate::state::AccountModel>,
)
    ensures
        separable(crate::state::account_json(a), crate::state::account_json(b)),
        crate::state::account_json(a) == crate::state::account_json(b) ==> a == b,
{
    reveal_strlit("null");
    match (a, b) {
        (Some(x), Some(y)) => lemma_account_state(x, y),
        (None, None) => lemma_plain_separable(
            crate::state::account_json(a),
            crate::state::account_json(b),
        ),
        _ => {
            if a is Some {
                lemma_account_brace(a->0);
            }
            if b is Some {
                lemma_account_brace(b->0);
            }
            lemma_first_separable(crate::state::account_json(a), crate::state::account_json(b));
        },
    }
}

proof fn lemma_account_brace(account: crate::state::AccountModel)
    ensures
        crate::state::account_json(Some(account)).len() > 0,
        crate::state::account_json(Some(account))[0] == '{',
{
    reveal_strlit("{\"balance\":");
    assert(crate::state::account_json(Some(account))[0] == "{\"balance\":"@[0]);
}


/// The notations of maps from texts to texts determine them.
pub proof fn lemma_texts(a: Seq<(Seq<char>, Seq<char>)>, b: Seq<(Seq<char>, Seq<char>)>)
    ensures
        ({
            let notation = |value: Seq<char>| crate::json::string_json(value);
            &&& separable(
                crate::json::object_json(a, notation),
                crate::json::object_json(b, notation),
            )
            &&& starts(crate::json::object_json(a, notation))
            &&& crate::json::object_json(a, notation) == crate::json::object_json(b, notation)
                ==> a == b
        }),
{
    let notation = |value: Seq<char>| crate::json::string_json(value);
    assert forall|i: int| 0 <= i < a.len() && i < b.len() implies separable(
        notation((#[trigger] a[i]).1),
        notation(b[i].1),
    ) by {
        lemma_string(a[i].1, b[i].1);
    }
    lemma_object(a, b, notation);
    if crate::json::object_json(a, notation) == crate::json::object_json(b, notation) {
        assert forall|i: int| 0 <= i < a.len() implies a[i] == b[i] by {
            assert(a[i].0 == b[i].0);
            assert(notation(a[i].1) == notation(b[i].1));
            lemma_string(a[i].1, b[i].1);
        }
        assert(a =~= b);
    }
}

/// The notations of storage determine it.
pub proof fn lemma_storage(
    a: Seq<(Seq<char>, Seq<(Seq<char>, Seq<char>)>)>,
    b: Seq<(Seq<char>, Seq<(Seq<char>, Seq<char>)>)>,
)
    ensures
        ({
            let notation = |slots: Seq<(Seq<char>, Seq<char>)>|
                crate::json::object_json(slots, |value: Seq<char>| crate::json::string_json(value));
            &&& separable(
                crate::json::object_json(a, notation),
                crate::json::object_json(b, notation),
            )
            &&& starts(crate::json::object_json(a, notation))
            &&& crate::json::object_json(a, notation) == crate::json::object_json(b, notation)
                ==> a == b
        }),
{
    let notation = |slots: Seq<(Seq<char>, Seq<char>)>|
                crate::json::object_json(slots, |value: Seq<char>| crate::json::string_json(value));
    assert forall|i: int| 0 <= i < a.len() && i < b.len() implies separable(
        notation((#[trigger] a[i]).1),
        notation(b[i].1),
    ) by {
        lemma_texts(a[i].1, b[i].1);
    }
    lemma_object(a, b, notation);
    if crate::json::object_json(a, notation) == crate::json::object_json(b, notation) {
        assert forall|i: int| 0 <= i < a.len() implies a[i] == b[i] by {
            assert(a[i].0 == b[i].0);
            assert(notation(a[i].1) == notation(b[i].1));
            lemma_texts(a[i].1, b[i].1);
        }
        assert(a =~= b);
    }
}

/// The notations of the accounts in a snapshot determine them.
pub proof fn lemma_accounts(
    a: Seq<(Seq<char>, Option<crate::state::AccountModel>)>,
    b: Seq<(Seq<char>, Option<crate::state::AccountModel>)>,
)
    ensures
        ({
            let notation = |account: Option<crate::state::AccountModel>|
                crate::state::account_json(account);
            &&& separable(
                crate::json::object_json(a, notation),
                crate::json::object_json(b, notation),
            )
            &&& starts(crate::json::object_json(a, notation))
            &&& crate::json::object_json(a, notation) == crate::json::object_json(b, notation)
                ==> a == b
        }),
{
    let notation = |account: Option<crate::state::AccountModel>|
                crate::state::account_json(account);
    assert forall|i: int| 0 <= i < a.len() && i < b.len() implies separable(
        notation((#[trigger] a[i]).1),
        notation(b[i].1),
    ) by {
        lemma_account(a[i].1, b[i].1);
    }
    lemma_object(a, b, notation);
    if crate::json::object_json(a, notation) == crate::json::object_json(b, notation) {
        assert forall|i: int| 0 <= i < a.len() implies a[i] == b[i] by {
            assert(a[i].0 == b[i].0);
            assert(notation(a[i].1) == notation(b[i].1));
            lemma_account(a[i].1, b[i].1);
        }
        assert(a =~= b);
    }
}

/// The notations of counts determine them.
pub proof fn lemma_counts(a: Seq<(Seq<char>, u64)>, b: Seq<(Seq<char>, u64)>)
    ensures
        ({
            let notation = |count: u64| count.json();
            &&& separable(
                crate::json::object_json(a, notation),
                crate::json::object_json(b, notation),
            )
            &&& starts(crate::json::object_json(a, notation))
            &&& crate::json::object_json(a, notation) == crate::json::object_json(b, notation)
                ==> a == b
        }),
{
    let notation = |count: u64| count.json();
    assert forall|i: int| 0 <= i < a.len() && i < b.len() implies separable(
        notation((#[trigger] a[i]).1),
        notation(b[i].1),
    ) by {
        lemma_number(a[i].1, b[i].1);
    }
    lemma_object(a, b, notation);
    if crate::json::object_json(a, notation) == crate::json::object_json(b, notation) {
        assert forall|i: int| 0 <= i < a.len() implies a[i] == b[i] by {
            assert(a[i].0 == b[i].0);
            assert(notation(a[i].1) == notation(b[i].1));
            lemma_number(a[i].1, b[i].1);
        }
        assert(a =~= b);
    }
}

/// The notation of the accounts in a snapshot.
spec fn accounts_text(snapshot: crate::state::SnapshotModel) -> Seq<char> {
    crate::json::object_json(
        snapshot.accounts,
        |account: Option<crate::state::AccountModel>| crate::state::account_json(account),
    )
}

/// The notations of snapshots determine them.
pub proof fn lemma_snapshot(a: crate::state::SnapshotModel, b: crate::state::SnapshotModel)
    ensures
        separable(crate::state::snapshot_json(a), crate::state::snapshot_json(b)),
        starts(crate::state::snapshot_json(a)),
        crate::state::snapshot_json(a) == crate::state::snapshot_json(b) ==> a == b,
{
    reveal_strlit("{\"accounts\":");
    reveal_strlit(",\"storage\":");
    broadcast use lemma_next_member;

    let leads = seq!["{\"accounts\":"@]
        .push(",\"storage\":"@);
    let u = seq![accounts_text(a)]
        .push(crate::state::storage_json(a.storage));
    let v = seq![accounts_text(b)]
        .push(crate::state::storage_json(b.storage));
    lemma_accounts(a.accounts, b.accounts);
    lemma_storage(a.storage, b.storage);

    lemma_first_member("{\"accounts\":"@, accounts_text(a));
    lemma_first_member("{\"accounts\":"@, accounts_text(b));
    let (s, t) = (crate::state::snapshot_json(a), crate::state::snapshot_json(b));
    assert(s == members_text(leads, u) + "}"@);
    assert(t == members_text(leads, v) + "}"@);
    assert forall|k: int| 0 <= k < 2 implies separable(#[trigger] u[k], v[k]) by {}
    lemma_struct(leads, u, v, s, t);
    assert(s[0] == leads[0][0]);
    if s == t {
        assert(u[0] == v[0]);
        assert(u[1] == v[1]);
    }
}

/// The notations of commitments determine receipts and snapshots.
pub proof fn lemma_commitment(
    a: Seq<crate::protocol::ReceiptModel>,
    b: Seq<crate::protocol::ReceiptModel>,
    c: crate::state::DatabaseState,
    d: crate::state::DatabaseState,
)
    ensures
        crate::execute::commitment_json(a, c) == crate::execute::commitment_json(b, d) ==> a == b
            && crate::state::snapshot_model(c) == crate::state::snapshot_model(d),
{
    reveal_strlit("{\"receipts\":");
    reveal_strlit(",\"state\":");
    broadcast use lemma_next_member;

    let leads = seq!["{\"receipts\":"@]
        .push(",\"state\":"@);
    let u = seq![crate::json::receipts_json(a)]
        .push(crate::state::snapshot_json(crate::state::snapshot_model(c)));
    let v = seq![crate::json::receipts_json(b)]
        .push(crate::state::snapshot_json(crate::state::snapshot_model(d)));
    lemma_receipts(a, b);
    lemma_snapshot(crate::state::snapshot_model(c), crate::state::snapshot_model(d));

    lemma_first_member("{\"receipts\":"@, crate::json::receipts_json(a));
    lemma_first_member("{\"receipts\":"@, crate::json::receipts_json(b));
    let (s, t) = (crate::execute::commitment_json(a, c), crate::execute::commitment_json(b, d));
    assert(s == members_text(leads, u) + "}"@);
    assert(t == members_text(leads, v) + "}"@);
    assert forall|k: int| 0 <= k < 2 implies separable(#[trigger] u[k], v[k]) by {}
    lemma_struct(leads, u, v, s, t);
    assert(s[0] == leads[0][0]);
    if s == t {
        assert(u[0] == v[0]);
        assert(u[1] == v[1]);
    }
}

/// The members of a record before its error.
pub open spec fn record_members(record: crate::protocol::RecordModel) -> Seq<char> {
    "{\"schema_version\":"@ + record.schema_version.json()
        + ",\"session_id\":"@ + crate::json::string_json(record.session_id)
        + ",\"sample_id\":"@ + crate::json::string_json(record.sample_id)
        + ",\"case_id\":"@ + crate::json::string_json(record.case_id)
        + ",\"repetition\":"@ + record.repetition.json()
        + ",\"phase\":"@ + crate::json::string_json(record.phase)
        + ",\"status\":"@ + crate::json::string_json(record.status)
        + ",\"execution_duration_ns\":"@ + record.execution_duration_ns.json()
        + ",\"execution_boundary\":"@ + crate::json::string_json(record.execution_boundary)
        + ",\"baseline_hash\":"@ + crate::json::optional_text_json(record.baseline_hash)
        + ",\"prepared_hash\":"@ + crate::json::optional_text_json(record.prepared_hash)
        + ",\"commitment_hash\":"@ + crate::json::optional_text_json(record.commitment_hash)
        + ",\"correctness_passed\":"@ + record.correctness_passed.json()
        + ",\"target_count\":"@ + record.target_count.json()
        + ",\"opcode_counts\":"@ + crate::json::optional_counts_json(record.opcode_counts)
        + ",\"declared_gas\":"@ + record.declared_gas.json()
        + ",\"charged_gas\":"@ + record.charged_gas.json()
}

proof fn lemma_small_number(m: u32, n: u32)
    ensures
        separable(m.json(), n.json()),
        m.json() == n.json() ==> m == n,
{
    lemma_number(m as u64, n as u64);
}

proof fn lemma_optional_counts(
    a: Option<Seq<(Seq<char>, u64)>>,
    b: Option<Seq<(Seq<char>, u64)>>,
)
    ensures
        separable(crate::json::optional_counts_json(a), crate::json::optional_counts_json(b)),
        crate::json::optional_counts_json(a) == crate::json::optional_counts_json(b) ==> a == b,
{
    reveal_strlit("null");
    reveal_strlit("{");
    let (s, t) = (crate::json::optional_counts_json(a), crate::json::optional_counts_json(b));
    match (a, b) {
        (Some(x), Some(y)) => lemma_counts(x, y),
        (None, None) => lemma_plain_separable(s, t),
        _ => {
            assert(a is Some ==> s[0] == '{');
            assert(b is Some ==> t[0] == '{');
            lemma_first_separable(s, t);
        },
    }
}

/// The leads of the members of a record before its error.
spec fn record_leads() -> Seq<Seq<char>> {
    seq!["{\"schema_version\":"@]
        .push(",\"session_id\":"@)
        .push(",\"sample_id\":"@)
        .push(",\"case_id\":"@)
        .push(",\"repetition\":"@)
        .push(",\"phase\":"@)
        .push(",\"status\":"@)
        .push(",\"execution_duration_ns\":"@)
        .push(",\"execution_boundary\":"@)
        .push(",\"baseline_hash\":"@)
        .push(",\"prepared_hash\":"@)
        .push(",\"commitment_hash\":"@)
        .push(",\"correctness_passed\":"@)
        .push(",\"target_count\":"@)
        .push(",\"opcode_counts\":"@)
        .push(",\"declared_gas\":"@)
        .push(",\"charged_gas\":"@)
}

/// The values of the members of a record before its error.
spec fn record_values(record: crate::protocol::RecordModel) -> Seq<Seq<char>> {
    seq![record.schema_version.json()]
        .push(crate::json::string_json(record.session_id))
        .push(crate::json::string_json(record.sample_id))
        .push(crate::json::string_json(record.case_id))
        .push(record.repetition.json())
        .push(crate::json::string_json(record.phase))
        .push(crate::json::string_json(record.status))
        .push(record.execution_duration_ns.json())
        .push(crate::json::string_json(record.execution_boundary))
        .push(crate::json::optional_text_json(record.baseline_hash))
        .push(crate::json::optional_text_json(record.prepared_hash))
        .push(crate::json::optional_text_json(record.commitment_hash))
        .push(record.correctness_passed.json())
        .push(record.target_count.json())
        .push(crate::json::optional_counts_json(record.opcode_counts))
        .push(record.declared_gas.json())
        .push(record.charged_gas.json())
}

proof fn lemma_record_leads()
    ensures
        are_leads(record_leads()),
        record_leads().len() == 17,
{
    reveal_strlit("{\"schema_version\":");
    reveal_strlit(",\"session_id\":");
    reveal_strlit(",\"sample_id\":");
    reveal_strlit(",\"case_id\":");
    reveal_strlit(",\"repetition\":");
    reveal_strlit(",\"phase\":");
    reveal_strlit(",\"status\":");
    reveal_strlit(",\"execution_duration_ns\":");
    reveal_strlit(",\"execution_boundary\":");
    reveal_strlit(",\"baseline_hash\":");
    reveal_strlit(",\"prepared_hash\":");
    reveal_strlit(",\"commitment_hash\":");
    reveal_strlit(",\"correctness_passed\":");
    reveal_strlit(",\"target_count\":");
    reveal_strlit(",\"opcode_counts\":");
    reveal_strlit(",\"declared_gas\":");
    reveal_strlit(",\"charged_gas\":");
}

proof fn lemma_record_text(record: crate::protocol::RecordModel)
    ensures
        record_members(record) == members_text(record_leads(), record_values(record)),
{
    broadcast use lemma_next_member;

    lemma_first_member("{\"schema_version\":"@, record.schema_version.json());
}

proof fn lemma_record_separable(
    a: crate::protocol::RecordModel,
    b: crate::protocol::RecordModel,
    k: int,
)
    requires
        0 <= k < 17,
    ensures
        separable(record_values(a)[k], record_values(b)[k]),
{
    if k == 0 {
        lemma_small_number(a.schema_version, b.schema_version);
    }
    if k == 1 {
        lemma_string(a.session_id, b.session_id);
    }
    if k == 2 {
        lemma_string(a.sample_id, b.sample_id);
    }
    if k == 3 {
        lemma_string(a.case_id, b.case_id);
    }
    if k == 4 {
        lemma_number(a.repetition, b.repetition);
    }
    if k == 5 {
        lemma_string(a.phase, b.phase);
    }
    if k == 6 {
        lemma_string(a.status, b.status);
    }
    if k == 7 {
        lemma_optional_number(a.execution_duration_ns, b.execution_duration_ns);
    }
    if k == 8 {
        lemma_string(a.execution_boundary, b.execution_boundary);
    }
    if k == 9 {
        lemma_optional_text(a.baseline_hash, b.baseline_hash);
    }
    if k == 10 {
        lemma_optional_text(a.prepared_hash, b.prepared_hash);
    }
    if k == 11 {
        lemma_optional_text(a.commitment_hash, b.commitment_hash);
    }
    if k == 12 {
        lemma_bool(a.correctness_passed, b.correctness_passed);
    }
    if k == 13 {
        lemma_optional_number(a.target_count, b.target_count);
    }
    if k == 14 {
        lemma_optional_counts(a.opcode_counts, b.opcode_counts);
    }
    if k == 15 {
        lemma_optional_number(a.declared_gas, b.declared_gas);
    }
    if k == 16 {
        lemma_optional_number(a.charged_gas, b.charged_gas);
    }
}

proof fn lemma_record_values(a: crate::protocol::RecordModel, b: crate::protocol::RecordModel)
    requires
        record_values(a) == record_values(b),
    ensures
        b == (crate::protocol::RecordModel { error: b.error, ..a }),
{
    let (u, v) = (record_values(a), record_values(b));
    assert(u[0] == v[0]);
    lemma_small_number(a.schema_version, b.schema_version);
    assert(u[1] == v[1]);
    lemma_string(a.session_id, b.session_id);
    assert(u[2] == v[2]);
    lemma_string(a.sample_id, b.sample_id);
    assert(u[3] == v[3]);
    lemma_string(a.case_id, b.case_id);
    assert(u[4] == v[4]);
    lemma_number(a.repetition, b.repetition);
    assert(u[5] == v[5]);
    lemma_string(a.phase, b.phase);
    assert(u[6] == v[6]);
    lemma_string(a.status, b.status);
    assert(u[7] == v[7]);
    lemma_optional_number(a.execution_duration_ns, b.execution_duration_ns);
    assert(u[8] == v[8]);
    lemma_string(a.execution_boundary, b.execution_boundary);
    assert(u[9] == v[9]);
    lemma_optional_text(a.baseline_hash, b.baseline_hash);
    assert(u[10] == v[10]);
    lemma_optional_text(a.prepared_hash, b.prepared_hash);
    assert(u[11] == v[11]);
    lemma_optional_text(a.commitment_hash, b.commitment_hash);
    assert(u[12] == v[12]);
    lemma_bool(a.correctness_passed, b.correctness_passed);
    assert(u[13] == v[13]);
    lemma_optional_number(a.target_count, b.target_count);
    assert(u[14] == v[14]);
    lemma_optional_counts(a.opcode_counts, b.opcode_counts);
    assert(u[15] == v[15]);
    lemma_optional_number(a.declared_gas, b.declared_gas);
    assert(u[16] == v[16]);
    lemma_optional_number(a.charged_gas, b.charged_gas);
}

/// The members of a record before its error determine what they say.
proof fn lemma_record_members(
    a: crate::protocol::RecordModel,
    b: crate::protocol::RecordModel,
    x: Seq<char>,
    y: Seq<char>,
)
    requires
        stops(x),
        stops(y),
        record_members(a) + x == record_members(b) + y,
    ensures
        b == (crate::protocol::RecordModel { error: b.error, ..a }),
        x == y,
{
    let (u, v) = (record_values(a), record_values(b));
    lemma_record_leads();
    lemma_record_text(a);
    lemma_record_text(b);
    assert forall|k: int| 0 <= k < u.len() implies separable(#[trigger] u[k], v[k]) by {
        lemma_record_separable(a, b, k);
    }
    lemma_members(record_leads(), u, v, x, y);
    lemma_record_values(a, b);
}

proof fn lemma_errors(
    a: Option<(Seq<char>, Seq<char>)>,
    b: Option<(Seq<char>, Seq<char>)>,
    x: Seq<char>,
    y: Seq<char>,
)
    requires
        crate::json::error_json(a) + ("}"@ + x) == crate::json::error_json(b) + ("}"@ + y),
    ensures
        a == b,
        x == y,
{
    reveal_strlit("}");
    reveal_strlit(",\"error\":{\"stage\":");
    reveal_strlit(",\"message\":");
    let (s, t) = (crate::json::error_json(a) + ("}"@ + x), crate::json::error_json(b) + ("}"@ + y));
    if a is None {
        assert(s =~= "}"@ + x);
    } else {
        assert(s[0] == ',');
    }
    if b is None {
        assert(t =~= "}"@ + y);
    } else {
        assert(t[0] == ',');
    }
    if a is None && b is None {
        lemma_cancel("}"@, x, y);
    } else if a is Some && b is Some {
        broadcast use lemma_next_member;

        let leads = seq![",\"error\":{\"stage\":"@].push(",\"message\":"@);
        let u = seq![crate::json::string_json((a->0).0)].push(crate::json::string_json((a->0).1));
        let v = seq![crate::json::string_json((b->0).0)].push(crate::json::string_json((b->0).1));
        lemma_first_member(",\"error\":{\"stage\":"@, crate::json::string_json((a->0).0));
        lemma_first_member(",\"error\":{\"stage\":"@, crate::json::string_json((b->0).0));
        lemma_string((a->0).0, (b->0).0);
        lemma_string((a->0).1, (b->0).1);
        let (p, q) = ("}"@ + ("}"@ + x), "}"@ + ("}"@ + y));
        assert(s =~= members_text(leads, u) + p);
        assert(t =~= members_text(leads, v) + q);
        assert(p[0] == '}' && q[0] == '}');
        assert forall|k: int| 0 <= k < 2 implies separable(#[trigger] u[k], v[k]) by {}
        lemma_members(leads, u, v, p, q);
        assert(u[0] == v[0] && u[1] == v[1]);
        lemma_cancel("}"@, "}"@ + x, "}"@ + y);
        lemma_cancel("}"@, x, y);
    }
}

/// The line of a record determines it: records with the same notation are the same, member by
/// member.
pub proof fn law_notations_determine_records(
    a: crate::protocol::RecordModel,
    b: crate::protocol::RecordModel,
)
    requires
        crate::json::record_json(a) == crate::json::record_json(b),
    ensures
        a == b,
{
    reveal_strlit("}");
    reveal_strlit(",\"error\":{\"stage\":");
    let empty = Seq::<char>::empty();
    let (x, y) = (
        crate::json::error_json(a.error) + ("}"@ + empty),
        crate::json::error_json(b.error) + ("}"@ + empty),
    );
    assert(crate::json::record_json(a) =~= record_members(a) + x);
    assert(crate::json::record_json(b) =~= record_members(b) + y);
    assert(a.error is None ==> x =~= "}"@ + empty);
    assert(b.error is None ==> y =~= "}"@ + empty);
    lemma_record_members(a, b, x, y);
    lemma_errors(a.error, b.error, empty, empty);
}

/// The notations of optional values determine whether there is one, and its notation.
proof fn lemma_option<T: Json>(a: Option<T>, b: Option<T>)
    requires
        a is Some && b is Some ==> separable(a->0.json(), b->0.json()),
        a is Some ==> a->0.json().len() > 0 && a->0.json()[0] != 'n',
        b is Some ==> b->0.json().len() > 0 && b->0.json()[0] != 'n',
    ensures
        separable(a.json(), b.json()),
        a.json() == b.json() ==> (a is Some <==> b is Some) && (a is Some ==> a->0.json()
            == b->0.json()),
{
    reveal_strlit("null");
    if a is None && b is None {
        lemma_plain_separable(a.json(), b.json());
    } else if a is None || b is None {
        lemma_first_separable(a.json(), b.json());
    }
}

proof fn lemma_optional_string(a: Option<String>, b: Option<String>)
    ensures
        separable(a.json(), b.json()),
        a.json() == b.json() ==> crate::protocol::optional_text(a)
            == crate::protocol::optional_text(b),
{
    lemma_optional_text(crate::protocol::optional_text(a), crate::protocol::optional_text(b));
}

proof fn lemma_strings(a: SortedMap<String, String>, b: SortedMap<String, String>)
    ensures
        separable(a.json(), b.json()),
        a.json() == b.json() ==> crate::protocol::text_entries(a@)
            == crate::protocol::text_entries(b@),
{
    crate::state::lemma_slots_json(a);
    crate::state::lemma_slots_json(b);
    lemma_texts(crate::protocol::text_entries(a@), crate::protocol::text_entries(b@));
}

/// Two accounts are declared alike.
pub open spec fn same_declared_account(a: Account, b: Account) -> bool {
    &&& a.balance@ == b.balance@
    &&& a.nonce@ == b.nonce@
    &&& a.code@ == b.code@
    &&& crate::protocol::text_entries(a.storage@) == crate::protocol::text_entries(b.storage@)
}

/// The notations of declared accounts determine them.
proof fn lemma_declared_account(a: Account, b: Account)
    ensures
        separable(a.json(), b.json()),
        a.json().len() > 0,
        a.json()[0] == '{',
        a.json() == b.json() ==> same_declared_account(a, b),
{
    reveal_strlit("{\"balance\":");
    reveal_strlit(",\"nonce\":");
    reveal_strlit(",\"code\":");
    reveal_strlit(",\"storage\":");
    broadcast use lemma_next_member;

    let leads = seq!["{\"balance\":"@]
        .push(",\"nonce\":"@)
        .push(",\"code\":"@)
        .push(",\"storage\":"@);
    let u = seq![a.balance.json()]
        .push(a.nonce.json())
        .push(a.code.json())
        .push(a.storage.json());
    let v = seq![b.balance.json()]
        .push(b.nonce.json())
        .push(b.code.json())
        .push(b.storage.json());
    lemma_string(a.balance@, b.balance@);
    lemma_string(a.nonce@, b.nonce@);
    lemma_string(a.code@, b.code@);
    lemma_strings(a.storage, b.storage);

    lemma_first_member("{\"balance\":"@, a.balance.json());
    lemma_first_member("{\"balance\":"@, b.balance.json());
    let (s, t) = (a.json(), b.json());
    assert(s == members_text(leads, u) + "}"@);
    assert(t == members_text(leads, v) + "}"@);
    assert forall|k: int| 0 <= k < 4 implies separable(#[trigger] u[k], v[k]) by {}
    lemma_struct(leads, u, v, s, t);
    assert(s[0] == leads[0][0]);
    if s == t {
        assert(u[0] == v[0]);
        assert(u[1] == v[1]);
        assert(u[2] == v[2]);
        assert(u[3] == v[3]);
    }
}

/// The notations of expected outcomes determine them.
proof fn lemma_outcomes(a: ExpectedOutcomes, b: ExpectedOutcomes)
    ensures
        separable(a.json(), b.json()),
        a.json().len() > 0,
        a.json()[0] == '{',
        a.json() == b.json() ==> a@ == b@,
{
    reveal_strlit("{\"receipts\":");
    reveal_strlit(",\"storage\":");
    broadcast use lemma_next_member;

    let leads = seq!["{\"receipts\":"@]
        .push(",\"storage\":"@);
    let u = seq![a.receipts.json()]
        .push(a.storage.json());
    let v = seq![b.receipts.json()]
        .push(b.storage.json());
    crate::json::lemma_receipts_json(a.receipts);
    crate::json::lemma_receipts_json(b.receipts);
    crate::state::lemma_storage_json(a.storage);
    crate::state::lemma_storage_json(b.storage);
    lemma_receipts(
        crate::protocol::receipts_view(a.receipts@),
        crate::protocol::receipts_view(b.receipts@),
    );
    lemma_storage(
        crate::protocol::storage_entries(a.storage@),
        crate::protocol::storage_entries(b.storage@),
    );

    lemma_first_member("{\"receipts\":"@, a.receipts.json());
    lemma_first_member("{\"receipts\":"@, b.receipts.json());
    let (s, t) = (a.json(), b.json());
    assert(s == members_text(leads, u) + "}"@);
    assert(t == members_text(leads, v) + "}"@);
    assert forall|k: int| 0 <= k < 2 implies separable(#[trigger] u[k], v[k]) by {}
    lemma_struct(leads, u, v, s, t);
    assert(s[0] == leads[0][0]);
    if s == t {
        assert(u[0] == v[0]);
        assert(u[1] == v[1]);
    }
}

/// The members of a transaction after its secret key.
pub open spec fn rest_of_transaction(transaction: Transaction) -> Seq<char> {
    ",\"to\":"@ + transaction.to.json() + ",\"data\":"@ + transaction.data.json()
        + ",\"value\":"@ + transaction.value.json() + ",\"gas_limit\":"@
        + transaction.gas_limit.json() + "}"@
}

/// Two transactions are declared alike.
pub open spec fn same_declared_transaction(a: Transaction, b: Transaction) -> bool {
    &&& a.sender@ == b.sender@
    &&& crate::protocol::optional_text(a.secret_key) == crate::protocol::optional_text(
        b.secret_key,
    )
    &&& a.to@ == b.to@
    &&& a.data@ == b.data@
    &&& a.value@ == b.value@
    &&& a.gas_limit == b.gas_limit
}

proof fn lemma_rest_of_transaction(
    a: Transaction,
    b: Transaction,
    x: Seq<char>,
    y: Seq<char>,
)
    requires
        rest_of_transaction(a) + x == rest_of_transaction(b) + y,
    ensures
        a.to@ == b.to@,
        a.data@ == b.data@,
        a.value@ == b.value@,
        a.gas_limit == b.gas_limit,
        x == y,
{
    reveal_strlit(",\"to\":");
    reveal_strlit(",\"data\":");
    reveal_strlit(",\"value\":");
    reveal_strlit(",\"gas_limit\":");
    reveal_strlit("}");
    broadcast use lemma_next_member;

    let leads = seq![",\"to\":"@]
        .push(",\"data\":"@)
        .push(",\"value\":"@)
        .push(",\"gas_limit\":"@);
    let u = seq![a.to.json()]
        .push(a.data.json())
        .push(a.value.json())
        .push(a.gas_limit.json());
    let v = seq![b.to.json()]
        .push(b.data.json())
        .push(b.value.json())
        .push(b.gas_limit.json());
    lemma_string(a.to@, b.to@);
    lemma_string(a.data@, b.data@);
    lemma_string(a.value@, b.value@);
    lemma_number(a.gas_limit, b.gas_limit);
    lemma_first_member(",\"to\":"@, a.to.json());
    lemma_first_member(",\"to\":"@, b.to.json());
    assert(rest_of_transaction(a) == members_text(leads, u) + "}"@);
    assert(rest_of_transaction(b) == members_text(leads, v) + "}"@);
    lemma_regroup(Seq::empty(), members_text(leads, u), "}"@, x);
    lemma_regroup(Seq::empty(), members_text(leads, v), "}"@, y);
    assert(("}"@ + x)[0] == '}' && ("}"@ + y)[0] == '}');
    assert forall|k: int| 0 <= k < 4 implies separable(#[trigger] u[k], v[k]) by {}
    lemma_members(leads, u, v, "}"@ + x, "}"@ + y);
    lemma_cancel("}"@, x, y);
    assert(u[0] == v[0] && u[1] == v[1] && u[2] == v[2] && u[3] == v[3]);
}

proof fn lemma_secret_keys(
    a: Transaction,
    b: Transaction,
    x: Seq<char>,
    y: Seq<char>,
)
    requires
        crate::json::secret_key_json(a.secret_key) + (rest_of_transaction(a) + x)
            == crate::json::secret_key_json(b.secret_key) + (rest_of_transaction(b) + y),
    ensures
        crate::protocol::optional_text(a.secret_key) == crate::protocol::optional_text(
            b.secret_key,
        ),
        rest_of_transaction(a) + x == rest_of_transaction(b) + y,
{
    reveal_strlit(",\"secret_key\":");
    reveal_strlit(",\"to\":");
    let (p, q) = (rest_of_transaction(a) + x, rest_of_transaction(b) + y);
    let s = crate::json::secret_key_json(a.secret_key) + p;
    let t = crate::json::secret_key_json(b.secret_key) + q;
    lemma_rest_starts(a, x);
    lemma_rest_starts(b, y);
    match (a.secret_key, b.secret_key) {
        (None, None) => {
            lemma_cancel(Seq::empty(), p, q);
        },
        (Some(key), Some(other)) => {
            lemma_string(key@, other@);
            assert(s =~= ",\"secret_key\":"@ + (key.json() + p));
            assert(t =~= ",\"secret_key\":"@ + (other.json() + q));
            lemma_peel(",\"secret_key\":"@, key.json(), other.json(), p, q);
        },
        (Some(key), None) => {
            assert(t =~= q);
            assert(s[2] == 's');
        },
        (None, Some(other)) => {
            assert(s =~= p);
            assert(t[2] == 's');
        },
    }
}

proof fn lemma_rest_starts(transaction: Transaction, x: Seq<char>)
    ensures
        (rest_of_transaction(transaction) + x).len() > 2,
        (rest_of_transaction(transaction) + x)[0] == ',',
        (rest_of_transaction(transaction) + x)[2] == 't',
{
    reveal_strlit(",\"to\":");
    let text = rest_of_transaction(transaction) + x;
    assert(text[0] == ",\"to\":"@[0]);
    assert(text[2] == ",\"to\":"@[2]);
}

/// The notations of declared transactions determine them.
proof fn lemma_declared_transaction(a: Transaction, b: Transaction)
    ensures
        separable(a.json(), b.json()),
        starts(a.json()),
        a.json() == b.json() ==> same_declared_transaction(a, b),
{
    reveal(separable);
    reveal_strlit("{\"sender\":");
    let (s, t) = (a.json(), b.json());
    assert(s[0] == "{\"sender\":"@[0]);
    lemma_string_closed(a.sender@, b.sender@);
    assert forall|x: Seq<char>, y: Seq<char>|
        #![trigger s + x, t + y]
        s + x == t + y implies same_declared_transaction(a, b) && x == y by {
        lemma_transaction_text(a, x);
        lemma_transaction_text(b, y);
        let p = crate::json::secret_key_json(a.secret_key) + (rest_of_transaction(a) + x);
        let q = crate::json::secret_key_json(b.secret_key) + (rest_of_transaction(b) + y);
        lemma_cancel("{\"sender\":"@, a.sender.json() + p, b.sender.json() + q);
        assert(crate::json::string_json(a.sender@) + p == crate::json::string_json(b.sender@) + q);
        lemma_secret_keys(a, b, x, y);
        lemma_rest_of_transaction(a, b, x, y);
    }
    assert forall|x: Seq<char>, y: Seq<char>|
        #![trigger s + x, t + y]
        stops(x) && stops(y) && s + x == t + y implies s == t && x == y by {
        lemma_split_from_end(s, t, x);
    }
    if s == t {
        assert(s + Seq::<char>::empty() == t + Seq::<char>::empty());
    }
}

proof fn lemma_split_from_end(s: Seq<char>, t: Seq<char>, x: Seq<char>)
    requires
        s + x == t + x,
    ensures
        s == t,
{
    assert((s + x).len() == s.len() + x.len());
    assert((t + x).len() == t.len() + x.len());
    lemma_split(s, t, x, x);
}

proof fn lemma_transaction_text(transaction: Transaction, x: Seq<char>)
    ensures
        transaction.json() + x == "{\"sender\":"@ + (transaction.sender.json() + (
        crate::json::secret_key_json(transaction.secret_key) + (rest_of_transaction(transaction)
            + x))),
{
    assert(transaction.json() + x =~= "{\"sender\":"@ + (transaction.sender.json() + (
    crate::json::secret_key_json(transaction.secret_key) + (rest_of_transaction(transaction)
        + x))));
}

/// A parameter by its contents: whether it is a text, and the text or the notation.
pub open spec fn parameter_view(value: ParameterValue) -> (bool, Seq<char>) {
    match value {
        ParameterValue::Text(text) => (true, text@),
        ParameterValue::Json(json) => (false, json@),
    }
}

/// A parameter is a text, a number, a truth value or nothing.
pub open spec fn is_simple(value: ParameterValue) -> bool {
    match value {
        ParameterValue::Text(_) => true,
        ParameterValue::Json(json) => {
            &&& json@.len() > 0
            &&& json@[0] != '"'
            &&& forall|i: int| 0 <= i < json@.len() ==> !is_stop(#[trigger] json@[i])
        },
    }
}

proof fn lemma_parameter(a: ParameterValue, b: ParameterValue)
    requires
        is_simple(a),
        is_simple(b),
    ensures
        separable(a.json(), b.json()),
        a.json() == b.json() ==> parameter_view(a) == parameter_view(b),
{
    match (a, b) {
        (ParameterValue::Text(s), ParameterValue::Text(t)) => lemma_string(s@, t@),
        (ParameterValue::Json(_), ParameterValue::Json(_)) => lemma_plain_separable(
            a.json(),
            b.json(),
        ),
        _ => {
            assert(a is Text ==> a.json()[0] == '"');
            assert(b is Text ==> b.json()[0] == '"');
            lemma_first_separable(a.json(), b.json());
        },
    }
}

/// Two maps of parameters are the same.
pub open spec fn same_parameters(
    a: Seq<(Seq<char>, ParameterValue)>,
    b: Seq<(Seq<char>, ParameterValue)>,
) -> bool {
    &&& a.len() == b.len()
    &&& forall|i: int|
        0 <= i < a.len() ==> (#[trigger] a[i]).0 == b[i].0 && parameter_view(a[i].1)
            == parameter_view(b[i].1)
}

/// Every parameter is simple.
pub open spec fn are_simple(parameters: Seq<(Seq<char>, ParameterValue)>) -> bool {
    forall|i: int| 0 <= i < parameters.len() ==> is_simple((#[trigger] parameters[i]).1)
}

proof fn lemma_parameters(
    a: SortedMap<String, ParameterValue>,
    b: SortedMap<String, ParameterValue>,
)
    requires
        are_simple(a@),
        are_simple(b@),
    ensures
        separable(a.json(), b.json()),
        a.json() == b.json() ==> same_parameters(a@, b@),
{
    let notation = |item: ParameterValue| item.json();
    assert forall|i: int| 0 <= i < a@.len() && i < b@.len() implies separable(
        notation((#[trigger] a@[i]).1),
        notation(b@[i].1),
    ) by {
        assert(is_simple(a@[i].1) && is_simple(b@[i].1));
        lemma_parameter(a@[i].1, b@[i].1);
    }
    lemma_object(a@, b@, notation);
    if a.json() == b.json() {
        assert forall|i: int| 0 <= i < a@.len() implies (#[trigger] a@[i]).0 == b@[i].0
            && parameter_view(a@[i].1) == parameter_view(b@[i].1) by {
            assert(notation(a@[i].1) == notation(b@[i].1));
            assert(is_simple(a@[i].1) && is_simple(b@[i].1));
            lemma_parameter(a@[i].1, b@[i].1);
        }
    }
}

/// Two prestates are the same.
pub open spec fn same_prestate(a: Seq<(Seq<char>, Account)>, b: Seq<(Seq<char>, Account)>) -> bool {
    &&& a.len() == b.len()
    &&& forall|i: int|
        0 <= i < a.len() ==> (#[trigger] a[i]).0 == b[i].0 && same_declared_account(a[i].1, b[i].1)
}

proof fn lemma_prestate(a: SortedMap<String, Account>, b: SortedMap<String, Account>)
    ensures
        separable(a.json(), b.json()),
        a.json() == b.json() ==> same_prestate(a@, b@),
{
    let notation = |item: Account| item.json();
    assert forall|i: int| 0 <= i < a@.len() && i < b@.len() implies separable(
        notation((#[trigger] a@[i]).1),
        notation(b@[i].1),
    ) by {
        lemma_declared_account(a@[i].1, b@[i].1);
    }
    lemma_object(a@, b@, notation);
    if a.json() == b.json() {
        assert forall|i: int| 0 <= i < a@.len() implies (#[trigger] a@[i]).0 == b@[i].0
            && same_declared_account(a@[i].1, b@[i].1) by {
            assert(notation(a@[i].1) == notation(b@[i].1));
            lemma_declared_account(a@[i].1, b@[i].1);
        }
    }
}

/// Two lists of transactions are the same.
pub open spec fn same_transactions(a: Seq<Transaction>, b: Seq<Transaction>) -> bool {
    &&& a.len() == b.len()
    &&& forall|i: int| 0 <= i < a.len() ==> same_declared_transaction(#[trigger] a[i], b[i])
}

proof fn lemma_declared_transactions(a: Vec<Transaction>, b: Vec<Transaction>)
    ensures
        separable(a.json(), b.json()),
        a.json() == b.json() ==> same_transactions(a@, b@),
{
    let notation = |item: Transaction| item.json();
    assert forall|i: int| 0 <= i < a@.len() implies starts(notation(#[trigger] a@[i])) by {
        lemma_declared_transaction(a@[i], a@[i]);
    }
    assert forall|i: int| 0 <= i < b@.len() implies starts(notation(#[trigger] b@[i])) by {
        lemma_declared_transaction(b@[i], b@[i]);
    }
    assert forall|i: int| 0 <= i < a@.len() && i < b@.len() implies separable(
        notation(#[trigger] a@[i]),
        notation(b@[i]),
    ) by {
        lemma_declared_transaction(a@[i], b@[i]);
    }
    lemma_array(a@, b@, notation);
    if a.json() == b.json() {
        assert forall|i: int| 0 <= i < a@.len() implies same_declared_transaction(
            #[trigger] a@[i],
            b@[i],
        ) by {
            assert(notation(a@[i]) == notation(b@[i]));
            lemma_declared_transaction(a@[i], b@[i]);
        }
    }
}

proof fn lemma_optional_parameters(
    a: Option<SortedMap<String, ParameterValue>>,
    b: Option<SortedMap<String, ParameterValue>>,
)
    requires
        a is Some ==> are_simple(a->0@),
        b is Some ==> are_simple(b->0@),
    ensures
        separable(a.json(), b.json()),
        a.json() == b.json() ==> (a is Some <==> b is Some) && (a is Some ==> same_parameters(
            a->0@,
            b->0@,
        )),
{
    reveal_strlit("{");
    if a is Some && b is Some {
        lemma_parameters(a->0, b->0);
    }
    assert(a is Some ==> a->0.json()[0] == '{');
    assert(b is Some ==> b->0.json()[0] == '{');
    lemma_option(a, b);
}

proof fn lemma_optional_prestate(
    a: Option<SortedMap<String, Account>>,
    b: Option<SortedMap<String, Account>>,
)
    ensures
        separable(a.json(), b.json()),
        a.json() == b.json() ==> (a is Some <==> b is Some) && (a is Some ==> same_prestate(
            a->0@,
            b->0@,
        )),
{
    reveal_strlit("{");
    if a is Some && b is Some {
        lemma_prestate(a->0, b->0);
    }
    assert(a is Some ==> a->0.json()[0] == '{');
    assert(b is Some ==> b->0.json()[0] == '{');
    lemma_option(a, b);
}

proof fn lemma_optional_transactions(a: Option<Vec<Transaction>>, b: Option<Vec<Transaction>>)
    ensures
        separable(a.json(), b.json()),
        a.json() == b.json() ==> (a is Some <==> b is Some) && (a is Some ==> same_transactions(
            a->0@,
            b->0@,
        )),
{
    reveal_strlit("[");
    if a is Some && b is Some {
        lemma_declared_transactions(a->0, b->0);
    }
    assert(a is Some ==> a->0.json()[0] == '[');
    assert(b is Some ==> b->0.json()[0] == '[');
    lemma_option(a, b);
}

proof fn lemma_optional_outcomes(a: Option<ExpectedOutcomes>, b: Option<ExpectedOutcomes>)
    ensures
        separable(a.json(), b.json()),
        a.json() == b.json() ==> (a is Some <==> b is Some) && (a is Some ==> a->0@ == b->0@),
{
    if a is Some {
        lemma_outcomes(a->0, a->0);
    }
    if b is Some {
        lemma_outcomes(b->0, b->0);
    }
    if a is Some && b is Some {
        lemma_outcomes(a->0, b->0);
    }
    lemma_option(a, b);
}

/// The leads of the members of a case.
spec fn case_leads() -> Seq<Seq<char>> {
    seq!["{\"id\":"@]
        .push(",\"status\":"@)
        .push(",\"family\":"@)
        .push(",\"target_operation\":"@)
        .push(",\"parameters\":"@)
        .push(",\"reason\":"@)
        .push(",\"pre\":"@)
        .push(",\"transactions\":"@)
        .push(",\"expected\":"@)
}

/// The values of the members of a case.
spec fn case_values(case: WorkloadCase) -> Seq<Seq<char>> {
    seq![case.id.json()]
        .push(case.status.json())
        .push(case.family.json())
        .push(case.target_operation.json())
        .push(case.parameters.json())
        .push(case.reason.json())
        .push(case.pre.json())
        .push(case.transactions.json())
        .push(case.expected.json())
}

proof fn lemma_case_leads()
    ensures
        are_leads(case_leads()),
        case_leads().len() == 9,
{
    reveal_strlit("{\"id\":");
    reveal_strlit(",\"status\":");
    reveal_strlit(",\"family\":");
    reveal_strlit(",\"target_operation\":");
    reveal_strlit(",\"parameters\":");
    reveal_strlit(",\"reason\":");
    reveal_strlit(",\"pre\":");
    reveal_strlit(",\"transactions\":");
    reveal_strlit(",\"expected\":");
}

proof fn lemma_case_text(case: WorkloadCase)
    ensures
        case.json() == members_text(case_leads(), case_values(case)) + "}"@,
{
    broadcast use lemma_next_member;

    lemma_first_member("{\"id\":"@, case.id.json());
}

proof fn lemma_case_separable(a: WorkloadCase, b: WorkloadCase, k: int)
    requires
        a.parameters is Some ==> are_simple(a.parameters->0@),
        b.parameters is Some ==> are_simple(b.parameters->0@),
        0 <= k < 9,
    ensures
        separable(case_values(a)[k], case_values(b)[k]),
{
    if k == 0 {
        lemma_string(a.id@, b.id@);
    }
    if k == 1 {
        lemma_string(a.status@, b.status@);
    }
    if k == 2 {
        lemma_optional_string(a.family, b.family);
    }
    if k == 3 {
        lemma_optional_string(a.target_operation, b.target_operation);
    }
    if k == 4 {
        lemma_optional_parameters(a.parameters, b.parameters);
    }
    if k == 5 {
        lemma_optional_string(a.reason, b.reason);
    }
    if k == 6 {
        lemma_optional_prestate(a.pre, b.pre);
    }
    if k == 7 {
        lemma_optional_transactions(a.transactions, b.transactions);
    }
    if k == 8 {
        lemma_optional_outcomes(a.expected, b.expected);
    }
}

/// Two cases are the same, member by member.
pub open spec fn same_case(a: WorkloadCase, b: WorkloadCase) -> bool {
    &&& a.id@ == b.id@
    &&& a.status@ == b.status@
    &&& crate::protocol::optional_text(a.family) == crate::protocol::optional_text(b.family)
    &&& crate::protocol::optional_text(a.target_operation) == crate::protocol::optional_text(
        b.target_operation,
    )
    &&& a.parameters is Some <==> b.parameters is Some
    &&& a.parameters is Some ==> same_parameters(a.parameters->0@, b.parameters->0@)
    &&& crate::protocol::optional_text(a.reason) == crate::protocol::optional_text(b.reason)
    &&& a.pre is Some <==> b.pre is Some
    &&& a.pre is Some ==> same_prestate(a.pre->0@, b.pre->0@)
    &&& a.transactions is Some <==> b.transactions is Some
    &&& a.transactions is Some ==> same_transactions(a.transactions->0@, b.transactions->0@)
    &&& a.expected is Some <==> b.expected is Some
    &&& a.expected is Some ==> a.expected->0@ == b.expected->0@
}

proof fn lemma_case_values(a: WorkloadCase, b: WorkloadCase)
    requires
        a.parameters is Some ==> are_simple(a.parameters->0@),
        b.parameters is Some ==> are_simple(b.parameters->0@),
        case_values(a) == case_values(b),
    ensures
        same_case(a, b),
{
    let (u, v) = (case_values(a), case_values(b));
    assert(u[0] == v[0]);
    lemma_string(a.id@, b.id@);
    assert(u[1] == v[1]);
    lemma_string(a.status@, b.status@);
    assert(u[2] == v[2]);
    lemma_optional_string(a.family, b.family);
    assert(u[3] == v[3]);
    lemma_optional_string(a.target_operation, b.target_operation);
    assert(u[4] == v[4]);
    lemma_optional_parameters(a.parameters, b.parameters);
    assert(u[5] == v[5]);
    lemma_optional_string(a.reason, b.reason);
    assert(u[6] == v[6]);
    lemma_optional_prestate(a.pre, b.pre);
    assert(u[7] == v[7]);
    lemma_optional_transactions(a.transactions, b.transactions);
    assert(u[8] == v[8]);
    lemma_optional_outcomes(a.expected, b.expected);
}

/// The text that is hashed of a case determines it: cases with the same notation are the same,
/// member by member. It leaves out cases with arrays or objects among their parameters, which are
/// written as they came.
pub proof fn law_notations_determine_cases(a: WorkloadCase, b: WorkloadCase)
    requires
        a.parameters is Some ==> are_simple(a.parameters->0@),
        b.parameters is Some ==> are_simple(b.parameters->0@),
        a.json() == b.json(),
    ensures
        same_case(a, b),
{
    let (u, v) = (case_values(a), case_values(b));
    lemma_case_leads();
    lemma_case_text(a);
    lemma_case_text(b);
    assert forall|k: int| 0 <= k < u.len() implies separable(#[trigger] u[k], v[k]) by {
        lemma_case_separable(a, b, k);
    }
    lemma_struct(case_leads(), u, v, a.json(), b.json());
    lemma_case_values(a, b);
}

/// The line of the ledger for a record takes one line and determines the record.
pub proof fn law_lines_determine_records(
    a: &crate::protocol::ResultRecord,
    b: &crate::protocol::ResultRecord,
    line: String,
)
    requires
        call_ensures(crate::json::record_line, (a,), line),
    ensures
        line@.len() > 0,
        line@.last() == '\n',
        forall|i: int| 0 <= i < line@.len() - 1 ==> #[trigger] line@[i] != '\n',
        call_ensures(crate::json::record_line, (b,), line) ==> a@ == b@,
{
    reveal(crate::json::one_line);
    crate::json::law_lines_are_notations(a@);
    crate::json::law_lines_are_notations(b@);
    crate::json::law_record_takes_one_line(a@);
    assert forall|i: int| 0 <= i < line@.len() - 1 implies #[trigger] line@[i] != '\n' by {
        assert(line@.drop_last()[i] == line@[i]);
    }
    if call_ensures(crate::json::record_line, (b,), line) {
        law_notations_determine_records(a@, b@);
    }
}

/// Parameters that are texts are written as strings, and all others as they came.
pub proof fn law_the_notation_of_parameters(value: ParameterValue)
    ensures
        value matches ParameterValue::Text(text) ==> value.json() == crate::json::string_json(
            text@,
        ),
        value matches ParameterValue::Json(json) ==> value.json() == json@,
{
}

/// A case is written member by member, with `null` for what it lacks.
pub proof fn law_the_notation_of_a_case(case: WorkloadCase)
    ensures
        case.json() == "{\"id\":"@ + crate::json::string_json(case.id@) + ",\"status\":"@
            + crate::json::string_json(case.status@) + ",\"family\":"@
            + crate::json::optional_text_json(crate::protocol::optional_text(case.family))
            + ",\"target_operation\":"@ + crate::json::optional_text_json(
            crate::protocol::optional_text(case.target_operation),
        ) + ",\"parameters\":"@ + case.parameters.json() + ",\"reason\":"@
            + crate::json::optional_text_json(crate::protocol::optional_text(case.reason))
            + ",\"pre\":"@ + case.pre.json() + ",\"transactions\":"@ + case.transactions.json()
            + ",\"expected\":"@ + case.expected.json() + "}"@,
        case.parameters is None ==> case.parameters.json() == "null"@,
        case.parameters matches Some(parameters) ==> case.parameters.json()
            == crate::json::object_json(parameters@, |item: ParameterValue| item.json()),
        case.pre is None ==> case.pre.json() == "null"@,
        case.pre matches Some(pre) ==> case.pre.json() == crate::json::object_json(
            pre@,
            |item: Account| item.json(),
        ),
        case.transactions is None ==> case.transactions.json() == "null"@,
        case.transactions matches Some(transactions) ==> case.transactions.json()
            == crate::json::array_json(transactions@, |item: Transaction| item.json()),
        case.expected is None ==> case.expected.json() == "null"@,
        case.expected matches Some(expected) ==> case.expected.json() == expected.json(),
{
}

/// Accounts and transactions are written member by member, and a secret key only where there is
/// one.
pub proof fn law_the_notation_of_accounts_and_transactions(
    account: Account,
    transaction: Transaction,
)
    ensures
        account.json() == "{\"balance\":"@ + crate::json::string_json(account.balance@)
            + ",\"nonce\":"@ + crate::json::string_json(account.nonce@) + ",\"code\":"@
            + crate::json::string_json(account.code@) + ",\"storage\":"@ + account.storage.json()
            + "}"@,
        transaction.secret_key is None ==> transaction.json() == "{\"sender\":"@
            + (crate::json::string_json(transaction.sender@) + rest_of_transaction(transaction)),
        transaction.secret_key matches Some(key) ==> transaction.json()
            == "{\"sender\":"@ + (crate::json::string_json(transaction.sender@)
            + (",\"secret_key\":"@ + crate::json::string_json(key@) + rest_of_transaction(
            transaction,
        ))),
{
    lemma_transaction_text(transaction, Seq::empty());
    let rest = rest_of_transaction(transaction);
    assert(transaction.json() + Seq::<char>::empty() =~= transaction.json());
    assert(rest + Seq::<char>::empty() =~= rest);
    if transaction.secret_key is None {
        assert(Seq::<char>::empty() + rest =~= rest);
    }
}

} // verus!
