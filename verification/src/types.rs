//! Foundational shared-kernel types.
//!
//! Prices are exact decimals (KRW); quantities are whole shares (Korean
//! equities do not trade fractionally); symbols are 6-digit domestic tickers.

use vstd::prelude::*;
use crate::decimal::Dec;

verus! {

/// Exact KRW price.
pub type Price = Dec;

/// Share count.
pub type Quantity = i64;

/// An instant in UTC, in nanoseconds since the Unix epoch.
pub type Timestamp = i64;

#[derive(Debug, Clone, Copy, PartialEq, Eq, Structural)]
pub enum OrderSide {
    Buy,
    Sell,
}

impl OrderSide {
    /// Lowercase wire name (`"buy"`, `"sell"`).
    pub fn as_str(&self) -> (r: &'static str)
        ensures
            r@ == (if *self == OrderSide::Buy { "buy"@ } else { "sell"@ }),
    {
        match self {
            OrderSide::Buy => "buy",
            OrderSide::Sell => "sell",
        }
    }
}

#[derive(Debug, Clone, Copy, PartialEq, Eq, Structural)]
pub enum OrderType {
    Market,
    Limit,
}

impl OrderType {
    /// Lowercase wire name (`"market"`, `"limit"`).
    pub fn as_str(&self) -> (r: &'static str)
        ensures
            r@ == (if *self == OrderType::Market { "market"@ } else { "limit"@ }),
    {
        match self {
            OrderType::Market => "market",
            OrderType::Limit => "limit",
        }
    }
}

pub open spec fn is_ascii_digit(c: char) -> bool {
    '0' <= c && c <= '9'
}

/// Exactly six ASCII digits.
pub open spec fn is_symbol_text(s: Seq<char>) -> bool {
    s.len() == 6 && forall|i: int| 0 <= i < 6 ==> is_ascii_digit(#[trigger] s[i])
}

/// The six digits read as a number; lexicographic order of symbol texts is
/// the order of these numbers.
pub open spec fn symbol_code(s: Seq<char>) -> int {
    (s[0] as int - 48) * 100000 + (s[1] as int - 48) * 10000 + (s[2] as int - 48) * 1000 + (
    s[3] as int - 48) * 100 + (s[4] as int - 48) * 10 + (s[5] as int - 48)
}

/// A validated 6-digit domestic ticker (e.g. `"005930"`).
#[derive(Debug, PartialEq, Eq, PartialOrd, Ord, Hash)]
pub struct Symbol(String);

impl Clone for Symbol {
    fn clone(&self) -> (r: Symbol)
        ensures
            r@ == self@,
    {
        self.duplicate()
    }
}

/// The rejected text of a symbol that is not exactly six digits.
#[derive(Debug, Clone)]
pub struct InvalidSymbol(pub String);

impl View for Symbol {
    type V = Seq<char>;

    closed spec fn view(&self) -> Seq<char> {
        self.0@
    }
}

impl Symbol {
    #[verifier::type_invariant]
    spec fn well_formed(self) -> bool {
        is_symbol_text(self.0@)
    }

    /// The ticker text is six digits.
    pub fn check_text(&self)
        ensures
            is_symbol_text(self@),
    {
        proof {
            use_type_invariant(self);
        }
    }

    /// A copy of the ticker.
    pub fn duplicate(&self) -> (r: Symbol)
        ensures
            r@ == self@,
    {
        proof {
            use_type_invariant(self);
        }
        Symbol(self.0.clone())
    }

    pub fn parse(value: &str) -> (r: Result<Symbol, InvalidSymbol>)
        ensures
            r is Ok <==> is_symbol_text(value@),
            r matches Ok(s) ==> s@ == value@,
            r matches Err(e) ==> e.0@ == value@,
    {
        let n = value.unicode_len();
        if n != 6 {
            return Err(InvalidSymbol(String::from_str(value)));
        }
        let mut i: usize = 0;
        while i < 6
            invariant
                n == 6,
                value@.len() == 6,
                0 <= i <= 6,
                forall|j: int| 0 <= j < i ==> is_ascii_digit(#[trigger] value@[j]),
            decreases 6 - i,
        {
            let c = value.get_char(i);
            if !('0' <= c && c <= '9') {
                return Err(InvalidSymbol(String::from_str(value)));
            }
            i = i + 1;
        }
        Ok(Symbol(String::from_str(value)))
    }

    pub fn as_str(&self) -> (r: &str)
        ensures
            r@ == self@,
    {
        self.0.as_str()
    }

    /// Same ticker.
    pub fn same(&self, other: &Symbol) -> (r: bool)
        ensures
            r == (self@ == other@),
    {
        self.0 == other.0
    }

    /// The six digits as a number (`"005930"` is 5930).
    pub fn code(&self) -> (r: u32)
        ensures
            r == symbol_code(self@),
            r < 1000000,
    {
        proof {
            use_type_invariant(self);
        }
        let s = self.0.as_str();
        let d0 = s.get_char(0) as u32 - 48;
        let d1 = s.get_char(1) as u32 - 48;
        let d2 = s.get_char(2) as u32 - 48;
        let d3 = s.get_char(3) as u32 - 48;
        let d4 = s.get_char(4) as u32 - 48;
        let d5 = s.get_char(5) as u32 - 48;
        d0 * 100000 + d1 * 10000 + d2 * 1000 + d3 * 100 + d4 * 10 + d5
    }

    /// Strictly earlier in ticker order.
    pub fn precedes(&self, other: &Symbol) -> (r: bool)
        ensures
            r == (symbol_code(self@) < symbol_code(other@)),
    {
        self.code() < other.code()
    }
}

pub proof fn lemma_symbol_code_injective(a: Seq<char>, b: Seq<char>)
    requires
        is_symbol_text(a),
        is_symbol_text(b),
        symbol_code(a) == symbol_code(b),
    ensures
        a == b,
{
    assert(is_ascii_digit(a[0]) && is_ascii_digit(a[1]) && is_ascii_digit(a[2]));
    assert(is_ascii_digit(a[3]) && is_ascii_digit(a[4]) && is_ascii_digit(a[5]));
    assert(is_ascii_digit(b[0]) && is_ascii_digit(b[1]) && is_ascii_digit(b[2]));
    assert(is_ascii_digit(b[3]) && is_ascii_digit(b[4]) && is_ascii_digit(b[5]));
    lemma_six_digits_injective(
        a[0] as int - 48, a[1] as int - 48, a[2] as int - 48, a[3] as int - 48,
        a[4] as int - 48, a[5] as int - 48, b[0] as int - 48, b[1] as int - 48,
        b[2] as int - 48, b[3] as int - 48, b[4] as int - 48, b[5] as int - 48,
    );
    assert(a =~= b);
}

proof fn lemma_six_digits_injective(
    x0: int, x1: int, x2: int, x3: int, x4: int, x5: int,
    y0: int, y1: int, y2: int, y3: int, y4: int, y5: int,
)
    requires
        0 <= x0 <= 9, 0 <= x1 <= 9, 0 <= x2 <= 9, 0 <= x3 <= 9, 0 <= x4 <= 9, 0 <= x5 <= 9,
        0 <= y0 <= 9, 0 <= y1 <= 9, 0 <= y2 <= 9, 0 <= y3 <= 9, 0 <= y4 <= 9, 0 <= y5 <= 9,
        x0 * 100000 + x1 * 10000 + x2 * 1000 + x3 * 100 + x4 * 10 + x5
            == y0 * 100000 + y1 * 10000 + y2 * 1000 + y3 * 100 + y4 * 10 + y5,
    ensures
        x0 == y0 && x1 == y1 && x2 == y2 && x3 == y3 && x4 == y4 && x5 == y5,
{
    assert(x5 == y5);
    assert(x4 == y4);
    assert(x3 == y3);
    assert(x2 == y2);
    assert(x1 == y1);
}

/// A last-trade price observation for one symbol.
#[derive(Debug, Clone)]
pub struct Quote {
    pub symbol: Symbol,
    pub last_price: Price,
    pub timestamp: Timestamp,
}

/// The first quote in `quotes` for the ticker `symbol`.
pub open spec fn quote_for(quotes: Seq<Quote>, symbol: Seq<char>) -> Option<Quote>
    decreases quotes.len(),
{
    if quotes.len() == 0 {
        None
    } else if quotes[0].symbol@ == symbol {
        Some(quotes[0])
    } else {
        quote_for(quotes.skip(1), symbol)
    }
}

/// Index of the first quote for `symbol`.
pub fn find_quote(quotes: &Vec<Quote>, symbol: &Symbol) -> (r: Option<usize>)
    ensures
        match r {
            Some(i) => i < quotes@.len() && quote_for(quotes@, symbol@) == Some(quotes@[i as int]),
            None => quote_for(quotes@, symbol@) is None,
        },
{
    let mut i: usize = 0;
    assert(quotes@.skip(0) =~= quotes@);
    while i < quotes.len()
        invariant
            0 <= i <= quotes@.len(),
            quote_for(quotes@, symbol@) == quote_for(quotes@.skip(i as int), symbol@),
        decreases quotes.len() - i,
    {
        proof {
            assert(quotes@.skip(i as int)[0] == quotes@[i as int]);
            assert(quotes@.skip(i as int).skip(1) =~= quotes@.skip(i + 1));
        }
        if quotes[i].symbol.same(symbol) {
            return Some(i);
        }
        i = i + 1;
    }
    None
}

} // verus!
