//! Canonical text: the representation by which registry values are compared.

use std::fmt::Debug;
use vstd::prelude::*;
use vstd::string::StringExecFns;

verus! {

/// A value with a canonical text.
///
/// Two values count as the same entry payload exactly when their canonical
/// texts are identical. Each value type chooses its text, and with it what
/// the comparison is sensitive to: a type that writes a list field in stored
/// order compares lists order-sensitively; a type that wants two orderings of
/// the same elements to agree has to normalise the order in its text.
pub trait Canonical {
    /// The canonical text of the value.
    spec fn canonical_text(&self) -> Seq<char>;

    /// Writes the canonical text out.
    fn canonical(&self) -> (text: String)
        ensures
            text@ == self.canonical_text(),
    ;
}

/// Whether two values have the same canonical text.
pub open spec fn same_text<V: Canonical>(a: V, b: V) -> bool {
    a.canonical_text() == b.canonical_text()
}

/// A string is its own canonical text.
impl Canonical for String {
    open spec fn canonical_text(&self) -> Seq<char> {
        self@
    }

    fn canonical(&self) -> (text: String) {
        self.clone()
    }
}

/// The character that stands for a decimal digit.
pub open spec fn digit(d: nat) -> char
    recommends
        d < 10,
{
    if d == 0 {
        '0'
    } else if d == 1 {
        '1'
    } else if d == 2 {
        '2'
    } else if d == 3 {
        '3'
    } else if d == 4 {
        '4'
    } else if d == 5 {
        '5'
    } else if d == 6 {
        '6'
    } else if d == 7 {
        '7'
    } else if d == 8 {
        '8'
    } else {
        '9'
    }
}

/// A number in decimal, most significant digit first, without leading zeros.
pub open spec fn decimal(n: nat) -> Seq<char>
    decreases n,
{
    if n < 10 {
        seq![digit(n)]
    } else {
        decimal(n / 10).push(digit(n % 10))
    }
}

/// A decimal form has at least one digit, and more than one from ten on.
proof fn lemma_decimal_len(n: nat)
    ensures
        decimal(n).len() >= 1,
        n >= 10 ==> decimal(n).len() >= 2,
    decreases n,
{
    if n >= 10 {
        lemma_decimal_len(n / 10);
    }
}

/// Different numbers have different decimal forms.
pub proof fn lemma_decimal_injective(a: nat, b: nat)
    requires
        decimal(a) == decimal(b),
    ensures
        a == b,
    decreases a,
{
    lemma_decimal_len(a);
    lemma_decimal_len(b);
    if a >= 10 && b >= 10 {
        assert(decimal(a).drop_last() == decimal(a / 10));
        assert(decimal(b).drop_last() == decimal(b / 10));
        assert(decimal(a).last() == digit(a % 10));
        assert(decimal(b).last() == digit(b % 10));
        lemma_decimal_injective(a / 10, b / 10);
    } else if a < 10 && b < 10 {
        assert(decimal(a)[0] == digit(a));
        assert(decimal(b)[0] == digit(b));
    }
}

/// Two numbers have the same canonical text exactly when they are equal.
pub proof fn lemma_numbers_same_text(a: u64, b: u64)
    ensures
        same_text(a, b) <==> a == b,
{
    if same_text(a, b) {
        lemma_decimal_injective(a as nat, b as nat);
    }
}

/// The one-character text of a decimal digit.
fn digit_text(d: u64) -> (text: &'static str)
    requires
        d < 10,
    ensures
        text@ == seq![digit(d as nat)],
{
    proof {
        reveal_strlit("0");
        reveal_strlit("1");
        reveal_strlit("2");
        reveal_strlit("3");
        reveal_strlit("4");
        reveal_strlit("5");
        reveal_strlit("6");
        reveal_strlit("7");
        reveal_strlit("8");
        reveal_strlit("9");
    }
    let text = match d {
        0 => "0",
        1 => "1",
        2 => "2",
        3 => "3",
        4 => "4",
        5 => "5",
        6 => "6",
        7 => "7",
        8 => "8",
        _ => "9",
    };
    text
}

/// A number's canonical text is its decimal form.
impl Canonical for u64 {
    open spec fn canonical_text(&self) -> Seq<char> {
        decimal(*self as nat)
    }

    fn canonical(&self) -> (text: String) {
        let number: u64 = *self;
        let mut rest: u64 = number / 10;
        let mut text = String::from_str(digit_text(number % 10));
        while rest > 0
            invariant
                rest > 0 ==> decimal(number as nat) == decimal(rest as nat) + text@,
                rest == 0 ==> decimal(number as nat) == text@,
            decreases rest,
        {
            let head = String::from_str(digit_text(rest % 10));
            text = head.concat(text.as_str());
            rest = rest / 10;
        }
        text
    }
}

/// A value together with the canonical text that its owner wrote for it.
///
/// This is how a value type that does not implement [`Canonical`] itself
/// takes part in a reconciliation: the caller renders each value once, by
/// whatever deterministic means it has, and the comparison goes by that text
/// alone. The value is carried along untouched.
#[derive(Debug, Clone, PartialEq, Eq)]
pub struct Rendered<V> {
    /// The value itself.
    pub value: V,
    /// Its canonical text.
    pub text: String,
}

impl<V> Rendered<V> {
    /// Pairs `value` with its canonical text.
    pub fn new(value: V, text: String) -> (rendered: Self)
        ensures
            rendered.value == value,
            rendered.text == text,
    {
        Rendered { value, text }
    }

    /// Gives the value back.
    pub fn into_value(self) -> (value: V)
        ensures
            value == self.value,
    {
        self.value
    }
}

/// Calls `format!` with `{:?}`, which writes the value out by its `Debug`
/// impl.
///
/// Nothing is claimed of the text: what a `Debug` impl writes is up to the
/// impl, and it need not write the same text twice.
#[verifier::external_body]
pub(crate) fn debug_text<V: Debug>(value: &V) -> (text: String) {
    format!("{:?}", value)
}

impl<V: Debug> Rendered<V> {
    /// Pairs `value` with its `Debug` text.
    ///
    /// Two values rendered this way are the same entry exactly when they
    /// print alike. A list field is printed in stored order, so two lists of
    /// the same elements in another order differ; a value type for which they
    /// should not has to be rendered by a text that puts the elements in
    /// order first.
    pub fn by_debug(value: V) -> (rendered: Self)
        ensures
            rendered.value == value,
    {
        let text = debug_text(&value);
        Rendered { value, text }
    }
}

impl<V> Canonical for Rendered<V> {
    open spec fn canonical_text(&self) -> Seq<char> {
        self.text@
    }

    fn canonical(&self) -> (text: String) {
        self.text.clone()
    }
}

} // verus!
