//! The synthetic paper market of the demo loop: its deterministic random
//! source, the symbols it trades and the entry prices its strategy uses.
//! The random walk itself (floating-point drift) is the application's.

use vstd::prelude::*;
use crate::decimal::{Dec, dec_of_int, decimal_checked_div, decimal_checked_mul};
use crate::symbol_table::SymbolTable;
use crate::types::{Symbol, is_symbol_text};

verus! {

/// Deterministic random source of the demo market (xorshift64*; the same
/// seed gives the same sequence).
pub struct DemoRng {
    state: u64,
}

/// 2^64: `u64` products wrap modulo it.
pub open spec fn wrap64(n: nat) -> u64 {
    (n % 0x1_0000_0000_0000_0000nat) as u64
}

pub open spec fn seeded_state(seed: u64) -> u64 {
    wrap64(seed as nat * 0x9E3779B97F4A7C15nat) | 1u64
}

pub open spec fn xorshift(x: u64) -> u64 {
    let a = x ^ (x >> 12u64);
    let b = a ^ ((a << 25u64) as u64);
    b ^ (b >> 27u64)
}

/// The 53 high bits of the scrambled state: `/ 2^53` gives `[0, 1)`.
pub open spec fn draw_bits(x: u64) -> u64 {
    wrap64(x as nat * 0x2545F4914F6CDD1Dnat) >> 11u64
}

impl DemoRng {
    pub closed spec fn state(self) -> u64 {
        self.state
    }

    pub fn new(seed: u64) -> (r: DemoRng)
        ensures
            r.state() == seeded_state(seed),
    {
        DemoRng { state: seed.wrapping_mul(0x9E3779B97F4A7C15) | 1 }
    }

    /// Advance and return the next 53 random bits.
    pub fn next_bits(&mut self) -> (r: u64)
        ensures
            final(self).state() == xorshift(old(self).state()),
            r == draw_bits(final(self).state()),
            r < 0x20_0000_0000_0000,
    {
        let mut x = self.state;
        x ^= x >> 12;
        x ^= x << 25;
        x ^= x >> 27;
        self.state = x;
        let value = x.wrapping_mul(0x2545F4914F6CDD1D);
        let bits = value >> 11;
        assert(value >> 11u64 < 0x20_0000_0000_0000) by (bit_vector);
        bits
    }
}

/// The demo market's symbols and their starting prices (whole KRW).
pub open spec fn demo_symbols() -> Seq<(Seq<char>, i64)> {
    seq![("005930"@, 80_000i64), ("035420"@, 41_000i64), ("069500"@, 100_000i64)]
}

pub fn demo_market() -> (r: Vec<(Symbol, i64)>)
    ensures
        r@.len() == 3,
        forall|i: int| 0 <= i < 3 ==> (#[trigger] r@[i]).0@ == demo_symbols()[i].0 && r@[i].1 == demo_symbols()[i].1,
{
    proof {
        reveal_strlit("005930");
        reveal_strlit("035420");
        reveal_strlit("069500");
    }
    let mut out: Vec<(Symbol, i64)> = Vec::new();
    match Symbol::parse("005930") {
        Ok(s) => out.push((s, 80_000)),
        Err(_) => {},
    }
    match Symbol::parse("035420") {
        Ok(s) => out.push((s, 41_000)),
        Err(_) => {},
    }
    match Symbol::parse("069500") {
        Ok(s) => out.push((s, 100_000)),
        Err(_) => {},
    }
    out
}

/// An entry 0.5% under a starting price: `price × 995 / 1000`.
pub open spec fn demo_entry(price: i64) -> Option<Dec> {
    match decimal_checked_mul(dec_of_int(price as int), dec_of_int(995)) {
        Some(x) => decimal_checked_div(x, dec_of_int(1000)),
        None => None,
    }
}

/// The table holds the entry of the demo market's `i`-th symbol.
pub open spec fn entry_recorded(t: Map<Seq<char>, Dec>, i: int) -> bool {
    match demo_entry(demo_symbols()[i].1) {
        Some(e) => t.contains_key(demo_symbols()[i].0) && t[demo_symbols()[i].0] == e,
        None => false,
    }
}

/// The entry prices of the demo strategy, 0.5% under each starting price;
/// `None` where the decimal arithmetic overflows.
pub fn entry_prices() -> (r: Option<SymbolTable<Dec>>)
    ensures
        match r {
            Some(t) => forall|i: int| 0 <= i < 3 ==> #[trigger] entry_recorded(t@, i),
            None => exists|i: int| 0 <= i < 3 && #[trigger] demo_entry(demo_symbols()[i].1) is None,
        },
{
    let market = demo_market();
    let mut table: SymbolTable<Dec> = SymbolTable::new();
    let mut i: usize = 0;
    while i < market.len()
        invariant
            market@.len() == 3,
            forall|k: int| 0 <= k < 3 ==> (#[trigger] market@[k]).0@ == demo_symbols()[k].0 && market@[k].1 == demo_symbols()[k].1,
            0 <= i <= 3,
            forall|k: int| 0 <= k < i ==> #[trigger] entry_recorded(table@, k),
        decreases 3 - i,
    {
        let (symbol, price) = &market[i];
        let scaled = match Dec::from_i64(*price).checked_mul(&Dec::from_i64(995)) {
            Some(x) => x,
            None => {
                assert(demo_entry(demo_symbols()[i as int].1) is None);
                return None;
            },
        };
        let entry = match scaled.checked_div(&Dec::from_i64(1000)) {
            Some(x) => x,
            None => {
                assert(demo_entry(demo_symbols()[i as int].1) is None);
                return None;
            },
        };
        let ghost before = table@;
        table.insert(symbol.duplicate(), entry);
        proof {
            reveal_strlit("005930");
            reveal_strlit("035420");
            reveal_strlit("069500");
            assert(demo_symbols()[0].0[1] != demo_symbols()[1].0[1]);
            assert(demo_symbols()[0].0[1] != demo_symbols()[2].0[1]);
            assert(demo_symbols()[1].0[1] != demo_symbols()[2].0[1]);
            assert(demo_symbols()[0].0 != demo_symbols()[1].0);
            assert(demo_symbols()[0].0 != demo_symbols()[2].0);
            assert(demo_symbols()[1].0 != demo_symbols()[2].0);
            assert forall|k: int| 0 <= k < i + 1 implies #[trigger] entry_recorded(table@, k) by {
                if k < i {
                    assert(entry_recorded(before, k));
                    assert(demo_symbols()[k].0 != demo_symbols()[i as int].0);
                }
            }
        }
        i = i + 1;
    }
    Some(table)
}

} // verus!
