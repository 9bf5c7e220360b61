//! The lazy-operation runner and small text helpers: decimal and
//! hexadecimal rendering used by the code generator and the proof
//! transcript.

use crate::operation::{lazy_ok, lazy_val, Context, LazyFn, Operation};
use vstd::prelude::*;

verus! {

/// A deferred computation over an abstract operation set; running it against
/// a concrete implementation yields its value.
pub struct Runner {
    pub func: LazyFn,
}

impl Runner {
    pub(crate) fn new(func: LazyFn) -> (r: Runner)
        ensures
            r.func == func,
    {
        Runner { func }
    }

    pub(crate) fn run<O: Operation>(self, param: &O) -> (r: Context)
        requires
            lazy_ok(self.func),
        ensures
            r.v@ =~= seq![lazy_val(self.func) as u32],
    {
        run_tree(&self.func, param)
    }
}

/// Evaluate a deferred operation tree against an operation set.
fn run_tree<O: Operation>(f: &LazyFn, op: &O) -> (r: Context)
    requires
        lazy_ok(*f),
    ensures
        r.v@ =~= seq![lazy_val(*f) as u32],
    decreases *f,
{
    proof {
        crate::operation::lemma_lazy_val_bounds(*f);
    }
    match f {
        LazyFn::Constant(v) => op.constant(*v),
        LazyFn::Private(name, v) => op.private(crate::parser::ast::clone_string(name), *v),
        LazyFn::Public(name, v) => op.public(crate::parser::ast::clone_string(name), *v),
        LazyFn::Add(a, b) => {
            let ra = run_tree(a, op);
            let rb = run_tree(b, op);
            proof {
                crate::operation::lemma_lazy_val_bounds(**a);
                crate::operation::lemma_lazy_val_bounds(**b);
            }
            op.add(ra, rb)
        },
        LazyFn::Sub(a, b) => {
            let ra = run_tree(a, op);
            let rb = run_tree(b, op);
            proof {
                crate::operation::lemma_lazy_val_bounds(**a);
                crate::operation::lemma_lazy_val_bounds(**b);
            }
            op.sub(ra, rb)
        },
        LazyFn::Mul(a, b) => {
            let ra = run_tree(a, op);
            let rb = run_tree(b, op);
            proof {
                crate::operation::lemma_lazy_val_bounds(**a);
                crate::operation::lemma_lazy_val_bounds(**b);
            }
            op.mul(ra, rb)
        },
        LazyFn::Div(a, b) => {
            let ra = run_tree(a, op);
            let rb = run_tree(b, op);
            proof {
                crate::operation::lemma_lazy_val_bounds(**a);
                crate::operation::lemma_lazy_val_bounds(**b);
            }
            op.div(ra, rb)
        },
    }
}

/// Append a text to a string, character by character.
pub(crate) fn append_str(s: &mut String, t: &str)
    ensures
        final(s)@ == old(s)@ + t@,
{
    let n = t.unicode_len();
    let mut i: usize = 0;
    while i < n
        invariant
            i <= n,
            n == t@.len(),
            s@ =~= old(s)@ + t@.take(i as int),
        decreases n - i,
    {
        crate::parser::lexer::push_char(s, t.get_char(i));
        proof {
            assert(t@.take(i + 1 as int) =~= t@.take(i as int).push(t@[i as int]));
            assert(old(s)@ + t@.take(i + 1 as int) =~= (old(s)@ + t@.take(i as int)).push(
                t@[i as int],
            ));
        }
        i = i + 1;
    }
    proof {
        assert(t@.take(t@.len() as int) =~= t@);
    }
}

pub(crate) fn append_string(s: &mut String, t: &String)
    ensures
        final(s)@ == old(s)@ + t@,
{
    append_str(s, t.as_str());
}

/// A copy of a word vector that reads back equal.
pub fn clone_u32_vec(v: &Vec<u32>) -> (r: Vec<u32>)
    ensures
        r@ == v@,
{
    let r = v.clone();
    proof {
        assert(r@ =~= v@);
    }
    r
}

/// The decimal digits of `n`, most significant first.
pub open spec fn dec_of(n: nat) -> Seq<char>
    decreases n,
{
    if n < 10 {
        seq![digit_char(n)]
    } else {
        dec_of(n / 10).push(digit_char(n % 10))
    }
}

/// The character for one decimal digit.
pub open spec fn digit_char(d: nat) -> char {
    if d == 0 {
        '0'
    } else if d == 1 {
        '1'
    } else if d == 2 {
        '2'
    } else if d == 3 {
        '3'
    } else if d == 4 {
        '4'
    } else if d == 5 {
        '5'
    } else if d == 6 {
        '6'
    } else if d == 7 {
        '7'
    } else if d == 8 {
        '8'
    } else {
        '9'
    }
}

fn digit_char_exec(d: u64) -> (r: char)
    requires
        d < 10,
    ensures
        r == digit_char(d as nat),
{
    if d == 0 {
        '0'
    } else if d == 1 {
        '1'
    } else if d == 2 {
        '2'
    } else if d == 3 {
        '3'
    } else if d == 4 {
        '4'
    } else if d == 5 {
        '5'
    } else if d == 6 {
        '6'
    } else if d == 7 {
        '7'
    } else if d == 8 {
        '8'
    } else {
        '9'
    }
}

/// Render a number in decimal.
pub fn dec_string_u64(x: u64) -> (r: String)
    ensures
        r@ == dec_of(x as nat),
{
    let mut n: u64 = x;
    let mut rev: Vec<char> = Vec::new();
    loop
        invariant
            n > 0 ==> dec_of(x as nat) =~= dec_of(n as nat) + rev@.reverse(),
            n == 0 ==> (rev@.len() > 0 && dec_of(x as nat) =~= rev@.reverse()) || (rev@.len() == 0
                && x == 0),
        ensures
            dec_of(x as nat) =~= rev@.reverse(),
        decreases n, (if rev@.len() == 0 {
            1int
        } else {
            0int
        }),
    {
        if n == 0 && rev.len() > 0 {
            break ;
        }
        let d = n % 10;
        let c = digit_char_exec(d);
        let ghost prev = rev@;
        rev.push(c);
        proof {
            assert(rev@.reverse() =~= seq![c] + prev.reverse());
        }
        n = n / 10;
        proof {
            if x == 0 {
                assert(dec_of(0) =~= seq![digit_char(0)]);
                assert(rev@.reverse() =~= seq![c]);
            }
        }
    }
    let mut s = String::new();
    let mut i: usize = rev.len();
    proof {
        if x > 0 {
            assert(dec_of(x as nat) =~= rev@.reverse());
        }
        assert(dec_of(x as nat) =~= rev@.reverse());
    }
    loop
        invariant
            i <= rev@.len(),
            s@ =~= rev@.reverse().take(rev@.len() - i),
        ensures
            s@ =~= rev@.reverse(),
        decreases i,
    {
        if i == 0 {
            proof {
                assert(rev@.reverse().take(rev@.len() as int) =~= rev@.reverse());
            }
            break ;
        }
        i = i - 1;
        crate::parser::lexer::push_char(&mut s, rev[i]);
        proof {
            let k = rev@.len() - i;
            assert(rev@.reverse()[k - 1] == rev@[i as int]);
            assert(rev@.reverse().take(k) =~= rev@.reverse().take(k - 1).push(rev@[i as int]));
        }
    }
    proof {
        assert(rev@.reverse().take(rev@.len() as int) =~= rev@.reverse());
    }
    s
}

/// The character for one hexadecimal digit.
pub open spec fn hex_digit(d: nat) -> char {
    if d < 10 {
        digit_char(d)
    } else if d == 10 {
        'a'
    } else if d == 11 {
        'b'
    } else if d == 12 {
        'c'
    } else if d == 13 {
        'd'
    } else if d == 14 {
        'e'
    } else {
        'f'
    }
}

/// Two lowercase hex characters for every byte, in order.
pub open spec fn hex_of(bytes: Seq<u8>) -> Seq<char>
    decreases bytes.len(),
{
    if bytes.len() == 0 {
        Seq::empty()
    } else {
        seq![hex_digit((bytes[0] >> 4) as nat), hex_digit((bytes[0] & 15) as nat)] + hex_of(
            bytes.drop_first(),
        )
    }
}

proof fn lemma_hex_of_push(bytes: Seq<u8>, b: u8)
    ensures
        hex_of(bytes.push(b)) =~= hex_of(bytes) + seq![
            hex_digit((b >> 4) as nat),
            hex_digit((b & 15) as nat),
        ],
    decreases bytes.len(),
{
    if bytes.len() == 0 {
        assert(bytes.push(b).drop_first() =~= Seq::<u8>::empty());
        assert(bytes.push(b)[0] == b);
        assert(hex_of(bytes.push(b)) == seq![
            hex_digit((b >> 4) as nat),
            hex_digit((b & 15) as nat),
        ] + hex_of(bytes.push(b).drop_first()));
        assert(hex_of(Seq::<u8>::empty()) =~= Seq::<char>::empty());
        assert(hex_of(bytes) =~= Seq::<char>::empty());
        assert(hex_of(bytes.push(b)) =~= hex_of(bytes) + seq![
            hex_digit((b >> 4) as nat),
            hex_digit((b & 15) as nat),
        ]);
    } else {
        assert(bytes.push(b).drop_first() =~= bytes.drop_first().push(b));
        lemma_hex_of_push(bytes.drop_first(), b);
        assert(bytes.push(b)[0] == bytes[0]);
        assert(hex_of(bytes.push(b)) =~= seq![
            hex_digit((bytes[0] >> 4) as nat),
            hex_digit((bytes[0] & 15) as nat),
        ] + (hex_of(bytes.drop_first()) + seq![
            hex_digit((b >> 4) as nat),
            hex_digit((b & 15) as nat),
        ]));
        assert(hex_of(bytes.push(b)) =~= (seq![
            hex_digit((bytes[0] >> 4) as nat),
            hex_digit((bytes[0] & 15) as nat),
        ] + hex_of(bytes.drop_first())) + seq![
            hex_digit((b >> 4) as nat),
            hex_digit((b & 15) as nat),
        ]);
        assert(hex_of(bytes) + seq![hex_digit((b >> 4) as nat), hex_digit((b & 15) as nat)] =~= (
        seq![hex_digit((bytes[0] >> 4) as nat), hex_digit((bytes[0] & 15) as nat)] + hex_of(
            bytes.drop_first(),
        )) + seq![hex_digit((b >> 4) as nat), hex_digit((b & 15) as nat)]);
    }
}

fn hex_digit_exec(d: u8) -> (r: char)
    requires
        d < 16,
    ensures
        r == hex_digit(d as nat),
{
    if d < 10 {
        digit_char_exec(d as u64)
    } else if d == 10 {
        'a'
    } else if d == 11 {
        'b'
    } else if d == 12 {
        'c'
    } else if d == 13 {
        'd'
    } else if d == 14 {
        'e'
    } else {
        'f'
    }
}

/// Render bytes as lowercase hex.
pub fn hex_string(bytes: &Vec<u8>) -> (r: String)
    ensures
        r@ == hex_of(bytes@),
{
    let mut s = String::new();
    let mut i: usize = 0;
    while i < bytes.len()
        invariant
            i <= bytes@.len(),
            s@ =~= hex_of(bytes@.take(i as int)),
        decreases bytes@.len() - i,
    {
        let b = bytes[i];
        proof {
            assert((b >> 4) < 16 && (b & 15) < 16) by (bit_vector);
        }
        crate::parser::lexer::push_char(&mut s, hex_digit_exec(b >> 4));
        crate::parser::lexer::push_char(&mut s, hex_digit_exec(b & 15));
        proof {
            assert(bytes@.take(i + 1 as int) =~= bytes@.take(i as int).push(bytes@[i as int]));
            lemma_hex_of_push(bytes@.take(i as int), bytes@[i as int]);
        }
        i = i + 1;
    }
    proof {
        assert(bytes@.take(bytes@.len() as int) =~= bytes@);
    }
    s
}

} // verus!
