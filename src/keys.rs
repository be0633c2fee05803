//! Physical blob keys: every key a repository writes carries its id.

use vstd::prelude::*;

verus! {

pub open spec fn digit_char(d: nat) -> char {
    if d == 0 { '0' }
    else if d == 1 { '1' }
    else if d == 2 { '2' }
    else if d == 3 { '3' }
    else if d == 4 { '4' }
    else if d == 5 { '5' }
    else if d == 6 { '6' }
    else if d == 7 { '7' }
    else if d == 8 { '8' }
    else { '9' }
}

/// The decimal digits of `n`, most significant first.
pub open spec fn decimal(n: nat) -> Seq<char>
    decreases n,
{
    if n < 10 {
        seq![digit_char(n)]
    } else {
        decimal(n / 10).push(digit_char(n % 10))
    }
}

/// `s` with zeros in front, to at least `width` characters.
pub open spec fn zero_padded(s: Seq<char>, width: nat) -> Seq<char> {
    if s.len() >= width {
        s
    } else {
        Seq::new((width - s.len()) as nat, |i: int| '0') + s
    }
}

/// The prefix of every physical key of repository `id`: `repo`, the id
/// written on at least four characters (sign included, zero-padded), and a dot.
pub open spec fn repo_prefix(id: i32) -> Seq<char> {
    let digits = if id >= 0 {
        zero_padded(decimal(id as nat), 4)
    } else {
        seq!['-'] + zero_padded(decimal((-id) as nat), 3)
    };
    seq!['r', 'e', 'p', 'o'] + digits + seq!['.']
}

pub open spec fn is_digit(c: char) -> bool {
    '0' <= c && c <= '9'
}

proof fn lemma_decimal_digits(n: nat)
    ensures
        forall|i: int| 0 <= i < decimal(n).len() ==> is_digit(#[trigger] decimal(n)[i]),
        n >= 1 ==> decimal(n)[0] != '0',
    decreases n,
{
    lemma_decimal_len(n);
    if n >= 10 {
        lemma_decimal_digits(n / 10);
        lemma_decimal_len(n / 10);
        assert(decimal(n)[0] == decimal(n / 10)[0]);
    }
}

proof fn lemma_decimal_injective(a: nat, b: nat)
    requires
        decimal(a) == decimal(b),
    ensures
        a == b,
    decreases a,
{
    lemma_decimal_len(a);
    lemma_decimal_len(b);
    if a >= 10 && b >= 10 {
        lemma_decimal_len(a / 10);
        lemma_decimal_len(b / 10);
        assert(decimal(a).last() == digit_char(a % 10));
        assert(decimal(b).last() == digit_char(b % 10));
        assert(decimal(a / 10) =~= decimal(a).drop_last());
        assert(decimal(b / 10) =~= decimal(b).drop_last());
        lemma_decimal_injective(a / 10, b / 10);
        assert(a % 10 == b % 10);
        assert(a == 10 * (a / 10) + a % 10);
        assert(b == 10 * (b / 10) + b % 10);
    } else if a < 10 && b < 10 {
        assert(decimal(a)[0] == digit_char(a));
        assert(decimal(b)[0] == digit_char(b));
    } else if a >= 10 {
        lemma_decimal_len(a / 10);
    } else if b >= 10 {
        lemma_decimal_len(b / 10);
    }
}

proof fn lemma_padded_injective(a: nat, b: nat, w: nat)
    requires
        zero_padded(decimal(a), w) == zero_padded(decimal(b), w),
    ensures
        a == b,
{
    lemma_decimal_len(a);
    lemma_decimal_len(b);
    lemma_decimal_digits(a);
    lemma_decimal_digits(b);
    let da = decimal(a);
    let db = decimal(b);
    let pa = zero_padded(da, w);
    if da.len() == db.len() {
        if da.len() < w {
            assert(da =~= pa.subrange((w - da.len()) as int, w as int));
            assert(db =~= pa.subrange((w - db.len()) as int, w as int));
        }
        lemma_decimal_injective(a, b);
    } else if da.len() < db.len() {
        // the longer one starts with a non-zero digit where the shorter is padded
        assert(db.len() >= 2);
        assert(b >= 10);
        if db.len() <= w {
            let i = (w - db.len()) as int;
            assert(pa[i] == '0');
            assert(zero_padded(db, w)[i] == db[0]);
        } else {
            assert(pa.len() != zero_padded(db, w).len());
        }
    } else {
        assert(da.len() >= 2);
        assert(a >= 10);
        if da.len() <= w {
            let i = (w - da.len()) as int;
            assert(zero_padded(db, w)[i] == '0');
            assert(pa[i] == da[0]);
        } else {
            assert(pa.len() != zero_padded(db, w).len());
        }
    }
}

/// The part of `repo_prefix(id)` between `repo` and the dot.
pub open spec fn id_text(id: i32) -> Seq<char> {
    if id >= 0 {
        zero_padded(decimal(id as nat), 4)
    } else {
        seq!['-'] + zero_padded(decimal((-id) as nat), 3)
    }
}

proof fn lemma_id_text(id: i32)
    ensures
        repo_prefix(id) == seq!['r', 'e', 'p', 'o'] + id_text(id) + seq!['.'],
        id_text(id).len() >= 1,
        forall|i: int| 0 <= i < id_text(id).len() ==> #[trigger] id_text(id)[i] != '.',
        (id_text(id)[0] == '-') == (id < 0),
{
    let n: nat = if id >= 0 { id as nat } else { (-id) as nat };
    lemma_decimal_len(n);
    lemma_decimal_digits(n);
    let w: nat = if id >= 0 { 4 } else { 3 };
    let p = zero_padded(decimal(n), w);
    assert forall|i: int| 0 <= i < p.len() implies is_digit(#[trigger] p[i]) by {
        if decimal(n).len() < w && i < w - decimal(n).len() {
        } else if decimal(n).len() < w {
            assert(p[i] == decimal(n)[i - (w - decimal(n).len())]);
        }
    }
}

/// Two repositories' ids give the same key prefix only if they are equal.
proof fn lemma_repo_prefix_injective(a: i32, b: i32)
    requires
        repo_prefix(a) == repo_prefix(b),
    ensures
        a == b,
{
    lemma_id_text(a);
    lemma_id_text(b);
    let ta = id_text(a);
    let tb = id_text(b);
    assert(ta =~= repo_prefix(a).subrange(4, repo_prefix(a).len() - 1));
    assert(tb =~= repo_prefix(b).subrange(4, repo_prefix(b).len() - 1));
    if a >= 0 {
        lemma_padded_injective(a as nat, b as nat, 4);
    } else {
        assert(zero_padded(decimal((-a) as nat), 3) =~= ta.subrange(1, ta.len() as int));
        assert(zero_padded(decimal((-b) as nat), 3) =~= tb.subrange(1, tb.len() as int));
        lemma_padded_injective((-a) as nat, (-b) as nat, 3);
    }
}

/// Keys written by two different repositories never meet in the physical
/// store: each physical key names the one repository it belongs to.
pub proof fn lemma_repositories_disjoint(a: i32, b: i32, x: Seq<char>, y: Seq<char>)
    requires
        a != b,
    ensures
        repo_prefix(a) + x != repo_prefix(b) + y,
{
    if repo_prefix(a) + x == repo_prefix(b) + y {
        lemma_id_text(a);
        lemma_id_text(b);
        let pa = repo_prefix(a);
        let pb = repo_prefix(b);
        let s = pa + x;
        if pa.len() < pb.len() {
            let i = pa.len() - 1;
            assert(s[i] == pa[i]);
            assert(s[i] == pb[i]);
            assert(pb[i] == id_text(b)[i - 4]);
        } else if pb.len() < pa.len() {
            let i = pb.len() - 1;
            assert(s[i] == pb[i]);
            assert(s[i] == pa[i]);
            assert(pa[i] == id_text(a)[i - 4]);
        } else {
            assert(pa =~= s.subrange(0, pa.len() as int));
            assert(pb =~= s.subrange(0, pb.len() as int));
            lemma_repo_prefix_injective(a, b);
        }
    }
}

/// A prefix followed by two keys gives one physical key only if the keys are equal.
pub proof fn lemma_prefix_injective(p: Seq<char>, a: Seq<char>, b: Seq<char>)
    ensures
        (p + a == p + b) == (a == b),
{
    if p + a == p + b {
        assert(a =~= (p + a).subrange(p.len() as int, (p + a).len() as int));
        assert(b =~= (p + b).subrange(p.len() as int, (p + b).len() as int));
    }
}

/// Relies on `String::push`: appends one character.
#[verifier::external_body]
fn push_char(s: &mut String, c: char)
    ensures
        final(s)@ == old(s)@.push(c),
{
    s.push(c);
}

fn digit(d: u32) -> (r: char)
    requires
        d < 10,
    ensures
        r == digit_char(d as nat),
{
    if d == 0 { '0' }
    else if d == 1 { '1' }
    else if d == 2 { '2' }
    else if d == 3 { '3' }
    else if d == 4 { '4' }
    else if d == 5 { '5' }
    else if d == 6 { '6' }
    else if d == 7 { '7' }
    else if d == 8 { '8' }
    else { '9' }
}

proof fn lemma_decimal_len(n: nat)
    ensures
        decimal(n).len() >= 1,
        n < 10 ==> decimal(n).len() == 1,
        10 <= n < 100 ==> decimal(n).len() == 2,
        100 <= n < 1000 ==> decimal(n).len() == 3,
        n >= 1000 ==> decimal(n).len() >= 4,
    decreases n,
{
    if n >= 10 {
        lemma_decimal_len(n / 10);
    }
}

fn push_decimal(s: &mut String, n: u32)
    ensures
        final(s)@ == old(s)@ + decimal(n as nat),
    decreases n,
{
    if n >= 10 {
        push_decimal(s, n / 10);
    }
    push_char(s, digit(n % 10));
    proof {
        if n < 10 {
            assert(decimal(n as nat) == seq![digit_char(n as nat)]);
        }
        assert(final(s)@ =~= old(s)@ + decimal(n as nat));
    }
}

fn push_padded(s: &mut String, n: u32, width: usize)
    requires
        width <= 4,
    ensures
        final(s)@ == old(s)@ + zero_padded(decimal(n as nat), width as nat),
{
    proof {
        lemma_decimal_len(n as nat);
    }
    let len: usize = if n < 10 {
        1
    } else if n < 100 {
        2
    } else if n < 1000 {
        3
    } else {
        4
    };
    let pad: usize = if len < width { width - len } else { 0 };
    let mut i: usize = 0;
    assert(old(s)@ + Seq::new(0, |j: int| '0') =~= old(s)@);
    while i < pad
        invariant
            i <= pad,
            s@ == old(s)@ + Seq::new(i as nat, |j: int| '0'),
        decreases pad - i,
    {
        push_char(s, '0');
        i = i + 1;
        assert(s@ =~= old(s)@ + Seq::new(i as nat, |j: int| '0'));
    }
    push_decimal(s, n);
    assert(s@ =~= old(s)@ + zero_padded(decimal(n as nat), width as nat));
}

/// The physical key under which repository `id` stores `key`.
pub fn physical_key(id: i32, key: &String) -> (r: String)
    ensures
        r@ == repo_prefix(id) + key@,
{
    let mut s = String::new();
    push_char(&mut s, 'r');
    push_char(&mut s, 'e');
    push_char(&mut s, 'p');
    push_char(&mut s, 'o');
    if id >= 0 {
        push_padded(&mut s, id as u32, 4);
    } else {
        push_char(&mut s, '-');
        let magnitude: u32 = if id == i32::MIN { 2147483648u32 } else { (-id) as u32 };
        push_padded(&mut s, magnitude, 3);
    }
    push_char(&mut s, '.');
    let ghost prefix = s@;
    assert(prefix =~= repo_prefix(id));
    let mut i: usize = 0;
    let n = key.unicode_len();
    while i < n
        invariant
            i <= n,
            n == key@.len(),
            s@ == prefix + key@.subrange(0, i as int),
        decreases n - i,
    {
        push_char(&mut s, key.get_char(i));
        i = i + 1;
        assert(s@ =~= prefix + key@.subrange(0, i as int));
    }
    assert(key@.subrange(0, n as int) =~= key@);
    s
}

} // verus!
