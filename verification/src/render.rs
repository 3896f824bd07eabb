//! The rendering capability: how a dynamic value appends its HTML
//! representation to a caller-owned buffer.
//!
//! Generated programs write their flushed literal text through [`raw`] (it
//! is already escaped) and every dynamic value through [`Html::write`],
//! which escapes exactly once, at render time.  [`Attr`] renders one
//! attribute pair, with the boolean and optional special cases.

use vstd::prelude::*;
use vstd::string::StringExecFns;
use vstd::string::StrSliceExecFns;

use crate::escape::{esc, esc_char, lemma_esc_push, string_push};
use crate::generate::bool_text;

verus! {

/// The character of one decimal digit.
pub open spec fn digit_char(d: nat) -> char {
    if d == 0 {
        '0'
    } else if d == 1 {
        '1'
    } else if d == 2 {
        '2'
    } else if d == 3 {
        '3'
    } else if d == 4 {
        '4'
    } else if d == 5 {
        '5'
    } else if d == 6 {
        '6'
    } else if d == 7 {
        '7'
    } else if d == 8 {
        '8'
    } else {
        '9'
    }
}

/// The decimal digits of a natural number, most significant first.
pub open spec fn dec_digits(n: nat) -> Seq<char>
    decreases n,
{
    if n < 10 {
        seq![digit_char(n)]
    } else {
        dec_digits(n / 10).push(digit_char(n % 10))
    }
}

/// The decimal form of an integer: a minus sign before the digits of its
/// magnitude when negative.
pub open spec fn dec_int(n: int) -> Seq<char> {
    if n < 0 {
        seq!['-'] + dec_digits((-n) as nat)
    } else {
        dec_digits(n as nat)
    }
}

/// Relies on itoa::Buffer::format: the decimal representation of the
/// integer, as digits only.
#[verifier::external_body]
fn fmt_u64(n: u64) -> (r: String)
    ensures
        r@ == dec_digits(n as nat),
{
    itoa::Buffer::new().format(n).to_owned()
}

/// Relies on itoa::Buffer::format: the decimal representation of the
/// integer, with a leading minus sign when it is negative.
#[verifier::external_body]
fn fmt_i64(n: i64) -> (r: String)
    ensures
        r@ == dec_int(n as int),
{
    itoa::Buffer::new().format(n).to_owned()
}

/// Relies on itoa::Buffer::format: the decimal representation of the
/// integer, as digits only.
#[verifier::external_body]
fn fmt_u128(n: u128) -> (r: String)
    ensures
        r@ == dec_digits(n as nat),
{
    itoa::Buffer::new().format(n).to_owned()
}

/// Relies on itoa::Buffer::format: the decimal representation of the
/// integer, with a leading minus sign when it is negative.
#[verifier::external_body]
fn fmt_i128(n: i128) -> (r: String)
    ensures
        r@ == dec_int(n as int),
{
    itoa::Buffer::new().format(n).to_owned()
}

/// A fragment of HTML that can append itself to a `String`, consuming
/// itself.  `rep` is the exact text one `write` appends.
pub trait Html: Sized {
    /// The exact text this value renders to.
    spec fn rep(self) -> Seq<char>;

    fn write(self, s: &mut String)
        ensures
            final(s)@ == old(s)@ + self.rep(),
    ;
}

/// Content that must not be escaped at render time: dynamically produced
/// HTML, or text that was already escaped (every compile-time flush).
#[derive(Debug, Clone, Copy, PartialEq, Eq)]
pub struct Raw<T>(pub T);

/// Wraps a value so that it renders without escaping.
pub fn raw<T>(x: T) -> (r: Raw<T>)
    ensures
        r == (Raw(x)),
{
    Raw(x)
}

impl Html for () {
    open spec fn rep(self) -> Seq<char> {
        Seq::empty()
    }

    fn write(self, s: &mut String) {
        proof {
            assert(old(s)@ + Seq::<char>::empty() =~= old(s)@);
        }
    }
}

impl Html for bool {
    open spec fn rep(self) -> Seq<char> {
        bool_text(self)
    }

    fn write(self, s: &mut String) {
        if self {
            s.append("true");
            proof {
                reveal_strlit("true");
                assert(s@ =~= old(s)@ + bool_text(true));
            }
        } else {
            s.append("false");
            proof {
                reveal_strlit("false");
                assert(s@ =~= old(s)@ + bool_text(false));
            }
        }
    }
}

impl Html for char {
    open spec fn rep(self) -> Seq<char> {
        esc_char(self)
    }

    fn write(self, s: &mut String) {
        match self {
            '&' => {
                s.append("&amp;");
                proof {
                    reveal_strlit("&amp;");
                    assert(s@ =~= old(s)@ + esc_char('&'));
                }
            },
            '<' => {
                s.append("&lt;");
                proof {
                    reveal_strlit("&lt;");
                    assert(s@ =~= old(s)@ + esc_char('<'));
                }
            },
            '>' => {
                s.append("&gt;");
                proof {
                    reveal_strlit("&gt;");
                    assert(s@ =~= old(s)@ + esc_char('>'));
                }
            },
            '\'' => {
                s.append("&apos;");
                proof {
                    reveal_strlit("&apos;");
                    assert(s@ =~= old(s)@ + esc_char('\''));
                }
            },
            '"' => {
                s.append("&quot;");
                proof {
                    reveal_strlit("&quot;");
                    assert(s@ =~= old(s)@ + esc_char('"'));
                }
            },
            ch => {
                string_push(s, ch);
                proof {
                    assert(s@ =~= old(s)@ + esc_char(ch));
                }
            },
        }
    }
}

impl Html for &str {
    open spec fn rep(self) -> Seq<char> {
        esc(self@)
    }

    #[verifier::loop_isolation(false)]
    fn write(self, s: &mut String) {
        let n = self.unicode_len();
        for i in 0..n
            invariant
                n == self@.len(),
                s@ == old(s)@ + esc(self@.take(i as int)),
        {
            let ch = self.get_char(i);
            proof {
                assert(self@.take(i as int).push(ch) =~= self@.take(i + 1));
                lemma_esc_push(self@.take(i as int), ch);
            }
            ch.write(s);
            proof {
                assert(s@ =~= old(s)@ + esc(self@.take(i + 1)));
            }
        }
        proof {
            assert(self@.take(n as int) =~= self@);
        }
    }
}

impl Html for Raw<&str> {
    open spec fn rep(self) -> Seq<char> {
        self.0@
    }

    fn write(self, s: &mut String) {
        s.append(self.0);
    }
}

impl<T: Html> Html for Option<T> {
    open spec fn rep(self) -> Seq<char> {
        match self {
            Some(x) => x.rep(),
            None => Seq::empty(),
        }
    }

    fn write(self, s: &mut String) {
        match self {
            Some(x) => x.write(s),
            None => {
                proof {
                    assert(old(s)@ + Seq::<char>::empty() =~= old(s)@);
                }
            },
        }
    }
}

impl Html for u64 {
    open spec fn rep(self) -> Seq<char> {
        dec_digits(self as nat)
    }

    fn write(self, s: &mut String) {
        let t = fmt_u64(self);
        s.append(t.as_str());
    }
}

impl Html for u8 {
    open spec fn rep(self) -> Seq<char> {
        dec_digits(self as nat)
    }

    fn write(self, s: &mut String) {
        (self as u64).write(s);
    }
}

impl Html for u16 {
    open spec fn rep(self) -> Seq<char> {
        dec_digits(self as nat)
    }

    fn write(self, s: &mut String) {
        (self as u64).write(s);
    }
}

impl Html for u32 {
    open spec fn rep(self) -> Seq<char> {
        dec_digits(self as nat)
    }

    fn write(self, s: &mut String) {
        (self as u64).write(s);
    }
}

impl Html for usize {
    open spec fn rep(self) -> Seq<char> {
        dec_digits(self as nat)
    }

    fn write(self, s: &mut String) {
        (self as u64).write(s);
    }
}

impl Html for i64 {
    open spec fn rep(self) -> Seq<char> {
        dec_int(self as int)
    }

    fn write(self, s: &mut String) {
        let t = fmt_i64(self);
        s.append(t.as_str());
    }
}

impl Html for i8 {
    open spec fn rep(self) -> Seq<char> {
        dec_int(self as int)
    }

    fn write(self, s: &mut String) {
        (self as i64).write(s);
    }
}

impl Html for i16 {
    open spec fn rep(self) -> Seq<char> {
        dec_int(self as int)
    }

    fn write(self, s: &mut String) {
        (self as i64).write(s);
    }
}

impl Html for i32 {
    open spec fn rep(self) -> Seq<char> {
        dec_int(self as int)
    }

    fn write(self, s: &mut String) {
        (self as i64).write(s);
    }
}

impl Html for u128 {
    open spec fn rep(self) -> Seq<char> {
        dec_digits(self as nat)
    }

    fn write(self, s: &mut String) {
        let t = fmt_u128(self);
        s.append(t.as_str());
    }
}

impl Html for i128 {
    open spec fn rep(self) -> Seq<char> {
        dec_int(self as int)
    }

    fn write(self, s: &mut String) {
        let t = fmt_i128(self);
        s.append(t.as_str());
    }
}

impl Html for isize {
    open spec fn rep(self) -> Seq<char> {
        dec_int(self as int)
    }

    fn write(self, s: &mut String) {
        (self as i64).write(s);
    }
}

/// One HTML attribute pair: a name and a value.
///
/// For most value types it renders `name="value"`, the name written
/// verbatim and the value through its own [`Html`] form.  A boolean value
/// renders the bare name for `true` and nothing at all for `false`; an
/// optional value renders as if given directly for `Some` and nothing for
/// `None`.
#[derive(Debug, Clone, Copy, PartialEq, Eq)]
pub struct Attr<K, V>(pub K, pub V);

impl Html for Attr<&str, &str> {
    open spec fn rep(self) -> Seq<char> {
        self.0@ + seq!['=', '"'] + esc(self.1@) + seq!['"']
    }

    fn write(self, s: &mut String) {
        s.append(self.0);
        s.append("=\"");
        self.1.write(s);
        s.append("\"");
        proof {
            reveal_strlit("=\"");
            reveal_strlit("\"");
            assert(s@ =~= old(s)@ + self.rep());
        }
    }
}

impl Html for Attr<&str, Raw<&str>> {
    open spec fn rep(self) -> Seq<char> {
        self.0@ + seq!['=', '"'] + self.1.0@ + seq!['"']
    }

    fn write(self, s: &mut String) {
        s.append(self.0);
        s.append("=\"");
        self.1.write(s);
        s.append("\"");
        proof {
            reveal_strlit("=\"");
            reveal_strlit("\"");
            assert(s@ =~= old(s)@ + self.rep());
        }
    }
}

impl Html for Attr<&str, char> {
    open spec fn rep(self) -> Seq<char> {
        self.0@ + seq!['=', '"'] + esc_char(self.1) + seq!['"']
    }

    fn write(self, s: &mut String) {
        s.append(self.0);
        s.append("=\"");
        self.1.write(s);
        s.append("\"");
        proof {
            reveal_strlit("=\"");
            reveal_strlit("\"");
            assert(s@ =~= old(s)@ + self.rep());
        }
    }
}

impl Html for Attr<&str, u64> {
    open spec fn rep(self) -> Seq<char> {
        self.0@ + seq!['=', '"'] + dec_digits(self.1 as nat) + seq!['"']
    }

    fn write(self, s: &mut String) {
        s.append(self.0);
        s.append("=\"");
        self.1.write(s);
        s.append("\"");
        proof {
            reveal_strlit("=\"");
            reveal_strlit("\"");
            assert(s@ =~= old(s)@ + self.rep());
        }
    }
}

impl Html for Attr<&str, i64> {
    open spec fn rep(self) -> Seq<char> {
        self.0@ + seq!['=', '"'] + dec_int(self.1 as int) + seq!['"']
    }

    fn write(self, s: &mut String) {
        s.append(self.0);
        s.append("=\"");
        self.1.write(s);
        s.append("\"");
        proof {
            reveal_strlit("=\"");
            reveal_strlit("\"");
            assert(s@ =~= old(s)@ + self.rep());
        }
    }
}

impl Html for Attr<&str, u32> {
    open spec fn rep(self) -> Seq<char> {
        self.0@ + seq!['=', '"'] + dec_digits(self.1 as nat) + seq!['"']
    }

    fn write(self, s: &mut String) {
        s.append(self.0);
        s.append("=\"");
        self.1.write(s);
        s.append("\"");
        proof {
            reveal_strlit("=\"");
            reveal_strlit("\"");
            assert(s@ =~= old(s)@ + self.rep());
        }
    }
}

impl Html for Attr<&str, usize> {
    open spec fn rep(self) -> Seq<char> {
        self.0@ + seq!['=', '"'] + dec_digits(self.1 as nat) + seq!['"']
    }

    fn write(self, s: &mut String) {
        s.append(self.0);
        s.append("=\"");
        self.1.write(s);
        s.append("\"");
        proof {
            reveal_strlit("=\"");
            reveal_strlit("\"");
            assert(s@ =~= old(s)@ + self.rep());
        }
    }
}

impl Html for Attr<&str, i32> {
    open spec fn rep(self) -> Seq<char> {
        self.0@ + seq!['=', '"'] + dec_int(self.1 as int) + seq!['"']
    }

    fn write(self, s: &mut String) {
        s.append(self.0);
        s.append("=\"");
        self.1.write(s);
        s.append("\"");
        proof {
            reveal_strlit("=\"");
            reveal_strlit("\"");
            assert(s@ =~= old(s)@ + self.rep());
        }
    }
}

impl Html for Attr<&str, u8> {
    open spec fn rep(self) -> Seq<char> {
        self.0@ + seq!['=', '"'] + dec_digits(self.1 as nat) + seq!['"']
    }

    fn write(self, s: &mut String) {
        s.append(self.0);
        s.append("=\"");
        self.1.write(s);
        s.append("\"");
        proof {
            reveal_strlit("=\"");
            reveal_strlit("\"");
            assert(s@ =~= old(s)@ + self.rep());
        }
    }
}

impl Html for Attr<&str, u16> {
    open spec fn rep(self) -> Seq<char> {
        self.0@ + seq!['=', '"'] + dec_digits(self.1 as nat) + seq!['"']
    }

    fn write(self, s: &mut String) {
        s.append(self.0);
        s.append("=\"");
        self.1.write(s);
        s.append("\"");
        proof {
            reveal_strlit("=\"");
            reveal_strlit("\"");
            assert(s@ =~= old(s)@ + self.rep());
        }
    }
}

impl Html for Attr<&str, u128> {
    open spec fn rep(self) -> Seq<char> {
        self.0@ + seq!['=', '"'] + dec_digits(self.1 as nat) + seq!['"']
    }

    fn write(self, s: &mut String) {
        s.append(self.0);
        s.append("=\"");
        self.1.write(s);
        s.append("\"");
        proof {
            reveal_strlit("=\"");
            reveal_strlit("\"");
            assert(s@ =~= old(s)@ + self.rep());
        }
    }
}

impl Html for Attr<&str, i8> {
    open spec fn rep(self) -> Seq<char> {
        self.0@ + seq!['=', '"'] + dec_int(self.1 as int) + seq!['"']
    }

    fn write(self, s: &mut String) {
        s.append(self.0);
        s.append("=\"");
        self.1.write(s);
        s.append("\"");
        proof {
            reveal_strlit("=\"");
            reveal_strlit("\"");
            assert(s@ =~= old(s)@ + self.rep());
        }
    }
}

impl Html for Attr<&str, i16> {
    open spec fn rep(self) -> Seq<char> {
        self.0@ + seq!['=', '"'] + dec_int(self.1 as int) + seq!['"']
    }

    fn write(self, s: &mut String) {
        s.append(self.0);
        s.append("=\"");
        self.1.write(s);
        s.append("\"");
        proof {
            reveal_strlit("=\"");
            reveal_strlit("\"");
            assert(s@ =~= old(s)@ + self.rep());
        }
    }
}

impl Html for Attr<&str, i128> {
    open spec fn rep(self) -> Seq<char> {
        self.0@ + seq!['=', '"'] + dec_int(self.1 as int) + seq!['"']
    }

    fn write(self, s: &mut String) {
        s.append(self.0);
        s.append("=\"");
        self.1.write(s);
        s.append("\"");
        proof {
            reveal_strlit("=\"");
            reveal_strlit("\"");
            assert(s@ =~= old(s)@ + self.rep());
        }
    }
}

impl Html for Attr<&str, isize> {
    open spec fn rep(self) -> Seq<char> {
        self.0@ + seq!['=', '"'] + dec_int(self.1 as int) + seq!['"']
    }

    fn write(self, s: &mut String) {
        s.append(self.0);
        s.append("=\"");
        self.1.write(s);
        s.append("\"");
        proof {
            reveal_strlit("=\"");
            reveal_strlit("\"");
            assert(s@ =~= old(s)@ + self.rep());
        }
    }
}

impl Html for Attr<&str, bool> {
    open spec fn rep(self) -> Seq<char> {
        if self.1 {
            self.0@
        } else {
            Seq::empty()
        }
    }

    fn write(self, s: &mut String) {
        if self.1 {
            s.append(self.0);
        } else {
            proof {
                assert(old(s)@ + Seq::<char>::empty() =~= old(s)@);
            }
        }
    }
}

impl<'a, T> Html for Attr<&'a str, Option<T>> where Attr<&'a str, T>: Html {
    open spec fn rep(self) -> Seq<char> {
        match self.1 {
            Some(x) => (Attr(self.0, x)).rep(),
            None => Seq::empty(),
        }
    }

    fn write(self, s: &mut String) {
        match self.1 {
            Some(x) => Attr(self.0, x).write(s),
            None => {
                proof {
                    assert(old(s)@ + Seq::<char>::empty() =~= old(s)@);
                }
            },
        }
    }
}

/// An optional attribute value renders exactly as the attribute given the
/// value directly when present, and omits the whole attribute when absent.
pub proof fn lemma_optional_attr<'a, T>(k: &'a str, x: T) where Attr<&'a str, T>: Html
    ensures
        (Attr(k, Some(x))).rep() == (Attr(k, x)).rep(),
        (Attr(k, Option::<T>::None)).rep() == Seq::<char>::empty(),
{
}

/// The escaping policy is one and the same in the two paths: what a
/// dynamic string renders to at run time is exactly what the generator
/// buffers for the same text at compile time.
pub proof fn lemma_escaping_paths_agree(s: &str)
    ensures
        s.rep() == esc(s@),
{
}

/// A boolean attribute renders its bare name when true and nothing when
/// false.
pub proof fn lemma_bool_attr_rep(k: &str)
    ensures
        (Attr(k, true)).rep() == k@,
        (Attr(k, false)).rep() == Seq::<char>::empty(),
{
}

} // verus!
