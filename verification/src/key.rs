//! Session keys: the name under which one subscription is known everywhere.

use vstd::prelude::*;
use vstd::string::StringExecFns;

verus! {

/// What a session key is, mathematically: the symbol that was asked for and
/// the ordinal that tells this subscription from the others to that symbol.
pub struct KeyView {
    pub symbol: Seq<char>,
    pub ordinal: nat,
}

/// The decimal digit that stands for `d`, for `d` below ten.
pub open spec fn digit_char(d: nat) -> char {
    if d == 0 {
        '0'
    } else if d == 1 {
        '1'
    } else if d == 2 {
        '2'
    } else if d == 3 {
        '3'
    } else if d == 4 {
        '4'
    } else if d == 5 {
        '5'
    } else if d == 6 {
        '6'
    } else if d == 7 {
        '7'
    } else if d == 8 {
        '8'
    } else {
        '9'
    }
}

/// Whether `c` is one of the ten decimal digits.
pub open spec fn is_digit(c: char) -> bool {
    exists|d: nat| d < 10 && c == #[trigger] digit_char(d)
}

/// The number `n` written in base ten, most significant digit first, without
/// leading zeros (zero itself is written `0`).
pub open spec fn decimal(n: nat) -> Seq<char>
    decreases n,
{
    if n < 10 {
        seq![digit_char(n)]
    } else {
        decimal(n / 10).push(digit_char(n % 10))
    }
}

/// The number that a sequence of decimal digits denotes.
pub open spec fn decimal_value(digits: Seq<char>) -> nat
    decreases digits.len(),
{
    if digits.len() == 0 {
        0
    } else {
        10 * decimal_value(digits.drop_last()) + digit_value(digits.last())
    }
}

/// The value of one decimal digit; zero for any other character.
pub open spec fn digit_value(c: char) -> nat {
    if c == '1' {
        1
    } else if c == '2' {
        2
    } else if c == '3' {
        3
    } else if c == '4' {
        4
    } else if c == '5' {
        5
    } else if c == '6' {
        6
    } else if c == '7' {
        7
    } else if c == '8' {
        8
    } else if c == '9' {
        9
    } else {
        0
    }
}

impl KeyView {
    /// The text of a key: the symbol, a hyphen, and the ordinal in decimal.
    pub open spec fn text(self) -> Seq<char> {
        self.symbol + seq!['-'] + decimal(self.ordinal)
    }
}

/// Every character of a decimal numeral is a digit, and there is at least one.
pub proof fn lemma_decimal_is_digits(n: nat)
    ensures
        decimal(n).len() >= 1,
        forall|i: int| 0 <= i < decimal(n).len() ==> is_digit(#[trigger] decimal(n)[i]),
    decreases n,
{
    if n < 10 {
        assert(decimal(n)[0] == digit_char(n));
    } else {
        lemma_decimal_is_digits(n / 10);
        let shorter = decimal(n / 10);
        assert(digit_char(n % 10) == digit_char(n % 10));
        assert forall|i: int| 0 <= i < decimal(n).len() implies is_digit(
            #[trigger] decimal(n)[i],
        ) by {
            if i < shorter.len() {
                assert(decimal(n)[i] == shorter[i]);
            } else {
                assert(decimal(n)[i] == digit_char(n % 10));
            }
        }
    }
}

/// Reading a decimal numeral back gives the number that was written.
pub proof fn lemma_decimal_value_inverts(n: nat)
    ensures
        decimal_value(decimal(n)) == n,
    decreases n,
{
    if n < 10 {
        let one = decimal(n);
        assert(one.drop_last().len() == 0);
        assert(decimal_value(one.drop_last()) == 0);
        assert(one.last() == digit_char(n));
    } else {
        lemma_decimal_value_inverts(n / 10);
        let shorter = decimal(n / 10);
        let whole = decimal(n);
        assert(whole.drop_last() =~= shorter);
        assert(whole.last() == digit_char(n % 10));
        assert(digit_value(digit_char(n % 10)) == n % 10);
    }
}

/// Two numbers with the same decimal numeral are the same number.
pub proof fn lemma_decimal_injective(a: nat, b: nat)
    requires
        decimal(a) == decimal(b),
    ensures
        a == b,
{
    lemma_decimal_value_inverts(a);
    lemma_decimal_value_inverts(b);
}

/// The text of a key determines the key: two keys that are written the same
/// have the same symbol and the same ordinal.
pub proof fn lemma_text_injective(a: KeyView, b: KeyView)
    requires
        a.text() == b.text(),
    ensures
        a == b,
{
    let da = decimal(a.ordinal);
    let db = decimal(b.ordinal);
    let ta = a.text();
    let tb = b.text();
    lemma_decimal_is_digits(a.ordinal);
    lemma_decimal_is_digits(b.ordinal);
    assert(ta.len() == a.symbol.len() + 1 + da.len());
    assert(tb.len() == b.symbol.len() + 1 + db.len());
    // The hyphen of one text cannot fall among the digits of the other.
    if da.len() < db.len() {
        let at = a.symbol.len() as int;
        assert(ta[at] == '-');
        assert(tb[at] == db[at - b.symbol.len() - 1]);
        lemma_hyphen_is_no_digit();
        assert(false);
    }
    if db.len() < da.len() {
        let at = b.symbol.len() as int;
        assert(tb[at] == '-');
        assert(ta[at] == da[at - a.symbol.len() - 1]);
        lemma_hyphen_is_no_digit();
        assert(false);
    }
    assert(a.symbol.len() == b.symbol.len());
    assert(a.symbol =~= b.symbol) by {
        assert forall|i: int| 0 <= i < a.symbol.len() implies a.symbol[i] == b.symbol[i] by {
            assert(ta[i] == a.symbol[i]);
            assert(tb[i] == b.symbol[i]);
        }
    }
    assert(da =~= db) by {
        assert forall|i: int| 0 <= i < da.len() implies da[i] == db[i] by {
            assert(ta[a.symbol.len() + 1 + i] == da[i]);
            assert(tb[b.symbol.len() + 1 + i] == db[i]);
        }
    }
    lemma_decimal_injective(a.ordinal, b.ordinal);
}

proof fn lemma_hyphen_is_no_digit()
    ensures
        !is_digit('-'),
{
    assert forall|d: nat| d < 10 implies '-' != #[trigger] digit_char(d) by {}
}

/// The name of one subscription.
///
/// A key is made of the symbol that was requested and an ordinal; two keys are
/// the same key when both agree. Its text, `SYMBOL-N`, is what a host shows
/// and what tells two subscriptions to one symbol apart.
#[derive(Debug)]
pub struct SessionKey {
    symbol: String,
    ordinal: u64,
}

impl View for SessionKey {
    type V = KeyView;

    closed spec fn view(&self) -> KeyView {
        KeyView { symbol: self.symbol@, ordinal: self.ordinal as nat }
    }
}

impl Clone for SessionKey {
    fn clone(&self) -> (copy: Self)
        ensures
            copy@ == self@,
    {
        SessionKey { symbol: self.symbol.clone(), ordinal: self.ordinal }
    }
}

impl PartialEq for SessionKey {
    fn eq(&self, other: &Self) -> (same: bool) {
        self.ordinal == other.ordinal && self.symbol == other.symbol
    }
}

impl Eq for SessionKey {

}

impl vstd::std_specs::cmp::PartialEqSpecImpl for SessionKey {
    open spec fn obeys_eq_spec() -> bool {
        true
    }

    open spec fn eq_spec(&self, other: &Self) -> bool {
        self@ == other@
    }
}

/// The one-character text of the digit `d`.
fn digit_text(d: u64) -> (text: &'static str)
    requires
        d < 10,
    ensures
        text@ == seq![digit_char(d as nat)],
{
    proof {
        reveal_strlit("0");
        reveal_strlit("1");
        reveal_strlit("2");
        reveal_strlit("3");
        reveal_strlit("4");
        reveal_strlit("5");
        reveal_strlit("6");
        reveal_strlit("7");
        reveal_strlit("8");
        reveal_strlit("9");
    }
    let text = if d == 0 {
        "0"
    } else if d == 1 {
        "1"
    } else if d == 2 {
        "2"
    } else if d == 3 {
        "3"
    } else if d == 4 {
        "4"
    } else if d == 5 {
        "5"
    } else if d == 6 {
        "6"
    } else if d == 7 {
        "7"
    } else if d == 8 {
        "8"
    } else {
        "9"
    };
    assert(text@ =~= seq![digit_char(d as nat)]);
    text
}

/// Appends `n`, written in decimal, to `out`.
fn append_decimal(out: &mut String, n: u64)
    ensures
        final(out)@ == old(out)@ + decimal(n as nat),
    decreases n,
{
    if n >= 10 {
        append_decimal(out, n / 10);
    }
    out.append(digit_text(n % 10));
    proof {
        if n >= 10 {
            assert(old(out)@ + decimal((n / 10) as nat) + seq![digit_char((n % 10) as nat)]
                =~= old(out)@ + decimal(n as nat));
        } else {
            assert(old(out)@ + seq![digit_char((n % 10) as nat)] =~= old(out)@ + decimal(
                n as nat,
            ));
        }
    }
}

impl SessionKey {
    /// The key of the subscription to `symbol` that bears `ordinal`.
    pub fn new(symbol: &str, ordinal: u64) -> (key: SessionKey)
        ensures
            key@ == (KeyView { symbol: symbol@, ordinal: ordinal as nat }),
    {
        SessionKey { symbol: String::from_str(symbol), ordinal }
    }

    /// The symbol that this subscription is to.
    pub fn symbol(&self) -> (symbol: &str)
        ensures
            symbol@ == self@.symbol,
    {
        self.symbol.as_str()
    }

    /// The ordinal that tells this subscription from others to the same symbol.
    pub fn ordinal(&self) -> (ordinal: u64)
        ensures
            ordinal as nat == self@.ordinal,
    {
        self.ordinal
    }

    /// Whether `other` names the same subscription.
    pub fn same_as(&self, other: &SessionKey) -> (same: bool)
        ensures
            same == (self@ == other@),
    {
        self.ordinal == other.ordinal && self.symbol == other.symbol
    }

    /// The text of the key: `SYMBOL-N`.
    pub fn text(&self) -> (text: String)
        ensures
            text@ == self@.text(),
    {
        let mut text = self.symbol.clone();
        proof {
            reveal_strlit("-");
            assert("-"@ =~= seq!['-']);
        }
        text.append("-");
        append_decimal(&mut text, self.ordinal);
        text
    }
}

} // verus!
