use vstd::prelude::*;

verus! {

/// The price recorded for one asset symbol.
pub struct PriceEntry {
    pub symbol: String,
    pub price: i128,
}

/// The price recorded for `symbol` in `entries`; zero when there is none.
pub open spec fn lookup(entries: Seq<PriceEntry>, symbol: Seq<char>) -> i128
    decreases entries.len(),
{
    if entries.len() == 0 {
        0
    } else if entries.last().symbol@ == symbol {
        entries.last().price
    } else {
        lookup(entries.drop_last(), symbol)
    }
}

pub open spec fn unique_symbols(entries: Seq<PriceEntry>) -> bool {
    forall|i: int, j: int|
        0 <= i < j < entries.len() ==> #[trigger] entries[i].symbol@ != #[trigger] entries[j].symbol@
}

proof fn lemma_lookup_at(entries: Seq<PriceEntry>, i: int, symbol: Seq<char>)
    requires
        unique_symbols(entries),
        0 <= i < entries.len(),
        entries[i].symbol@ == symbol,
    ensures
        lookup(entries, symbol) == entries[i].price,
    decreases entries.len(),
{
    if i < entries.len() - 1 {
        let rest = entries.drop_last();
        assert(entries.last().symbol@ != symbol);
        assert(unique_symbols(rest)) by {
            assert forall|a: int, b: int| 0 <= a < b < rest.len() implies #[trigger] rest[a].symbol@
                != #[trigger] rest[b].symbol@ by {
                assert(rest[a] == entries[a] && rest[b] == entries[b]);
            }
        }
        assert(rest[i] == entries[i]);
        lemma_lookup_at(rest, i, symbol);
    }
}

proof fn lemma_lookup_missing(entries: Seq<PriceEntry>, symbol: Seq<char>)
    requires
        forall|i: int| 0 <= i < entries.len() ==> #[trigger] entries[i].symbol@ != symbol,
    ensures
        lookup(entries, symbol) == 0,
    decreases entries.len(),
{
    if entries.len() > 0 {
        let rest = entries.drop_last();
        assert forall|i: int| 0 <= i < rest.len() implies #[trigger] rest[i].symbol@ != symbol by {
            assert(rest[i] == entries[i]);
        }
        lemma_lookup_missing(rest, symbol);
    }
}

proof fn lemma_lookup_unique(entries: Seq<PriceEntry>, symbol: Seq<char>)
    requires
        unique_symbols(entries),
    ensures
        (exists|i: int|
            0 <= i < entries.len() && #[trigger] entries[i].symbol@ == symbol && lookup(entries, symbol)
                == entries[i].price) || ((forall|i: int|
            0 <= i < entries.len() ==> #[trigger] entries[i].symbol@ != symbol) && lookup(
            entries,
            symbol,
        ) == 0),
{
    if exists|i: int| 0 <= i < entries.len() && #[trigger] entries[i].symbol@ == symbol {
        let i = choose|i: int| 0 <= i < entries.len() && #[trigger] entries[i].symbol@ == symbol;
        lemma_lookup_at(entries, i, symbol);
    } else {
        lemma_lookup_missing(entries, symbol);
    }
}

/// A table of asset prices, one per symbol.
pub struct PriceOracle {
    pub entries: Vec<PriceEntry>,
}

impl PriceOracle {
    pub open spec fn wf(&self) -> bool {
        unique_symbols(self.entries@)
    }

    /// The price recorded for `symbol`; zero when there is none.
    pub open spec fn price_of(&self, symbol: Seq<char>) -> i128 {
        lookup(self.entries@, symbol)
    }

    /// A table with no prices.
    pub fn new() -> (r: Self)
        ensures
            r.wf(),
            forall|s: Seq<char>| #[trigger] r.price_of(s) == 0,
    {
        PriceOracle { entries: Vec::new() }
    }

    /// Records the starting prices: 1_000_000 for XLM and 10_000_000 for
    /// USDC (seven decimals). Other symbols keep their prices.
    pub fn initialize(&mut self)
        requires
            old(self).wf(),
        ensures
            final(self).wf(),
            final(self).price_of("XLM"@) == 1_000_000,
            final(self).price_of("USDC"@) == 10_000_000,
            forall|s: Seq<char>|
                s != "XLM"@ && s != "USDC"@ ==> #[trigger] final(self).price_of(s) == old(
                    self,
                ).price_of(s),
    {
        proof {
            reveal_strlit("XLM");
            reveal_strlit("USDC");
            assert("XLM"@.len() == 3 && "USDC"@.len() == 4);
            assert("XLM"@ != "USDC"@);
        }
        self.set_price("XLM".to_owned(), 1_000_000);
        self.set_price("USDC".to_owned(), 10_000_000);
    }

    /// Records `price` for `asset`, replacing any earlier price of it.
    pub fn set_price(&mut self, asset: String, price: i128)
        requires
            old(self).wf(),
        ensures
            final(self).wf(),
            final(self).price_of(asset@) == price,
            forall|s: Seq<char>| s != asset@ ==> #[trigger] final(self).price_of(s) == old(self).price_of(s),
    {
        let ghost old_entries = self.entries@;
        let ghost sym = asset@;
        let n = self.entries.len();
        let mut i: usize = 0;
        while i < n
            invariant
                n == self.entries.len(),
                self.entries@ == old_entries,
                old_entries == old(self).entries@,
                unique_symbols(old_entries),
                sym == asset@,
                0 <= i <= n,
                forall|j: int| 0 <= j < i ==> #[trigger] old_entries[j].symbol@ != sym,
            decreases n - i,
        {
            if self.entries[i].symbol == asset {
                self.entries.set(i, PriceEntry { symbol: asset, price });
                proof {
                    let e = self.entries@;
                    assert(unique_symbols(e)) by {
                        assert forall|a: int, b: int| 0 <= a < b < e.len() implies #[trigger] e[a].symbol@
                            != #[trigger] e[b].symbol@ by {
                            if a != i && b != i {
                                assert(e[a] == old_entries[a] && e[b] == old_entries[b]);
                            } else if a == i {
                                assert(e[b] == old_entries[b]);
                            } else {
                                assert(e[a] == old_entries[a]);
                            }
                        }
                    }
                    lemma_lookup_at(e, i as int, sym);
                    assert forall|s: Seq<char>| s != sym implies #[trigger] self.price_of(s) == lookup(
                        old_entries,
                        s,
                    ) by {
                        lemma_lookup_unique(old_entries, s);
                        lemma_lookup_unique(e, s);
                        if exists|k: int| 0 <= k < e.len() && #[trigger] e[k].symbol@ == s {
                            let k = choose|k: int| 0 <= k < e.len() && #[trigger] e[k].symbol@ == s;
                            assert(e[k] == old_entries[k]);
                            lemma_lookup_at(e, k, s);
                            lemma_lookup_at(old_entries, k, s);
                        } else {
                            assert forall|k: int| 0 <= k < old_entries.len() implies #[trigger] old_entries[k].symbol@
                                != s by {
                                if k != i {
                                    assert(e[k] == old_entries[k]);
                                }
                            }
                            lemma_lookup_missing(old_entries, s);
                            lemma_lookup_missing(e, s);
                        }
                    }
                }
                return;
            }
            i = i + 1;
        }
        self.entries.push(PriceEntry { symbol: asset, price });
        proof {
            let e = self.entries@;
            assert(e.drop_last() =~= old_entries);
            assert(unique_symbols(e)) by {
                assert forall|a: int, b: int| 0 <= a < b < e.len() implies #[trigger] e[a].symbol@
                    != #[trigger] e[b].symbol@ by {
                    assert(e[a] == old_entries[a]);
                    if b < old_entries.len() {
                        assert(e[b] == old_entries[b]);
                    }
                }
            }
        }
    }

    /// The price recorded for `asset`; zero when there is none.
    pub fn get_price(&self, asset: &String) -> (r: i128)
        requires
            self.wf(),
        ensures
            r == self.price_of(asset@),
    {
        let n = self.entries.len();
        let mut i: usize = 0;
        while i < n
            invariant
                n == self.entries.len(),
                unique_symbols(self.entries@),
                0 <= i <= n,
                forall|j: int| 0 <= j < i ==> #[trigger] self.entries@[j].symbol@ != asset@,
            decreases n - i,
        {
            if self.entries[i].symbol == *asset {
                proof {
                    lemma_lookup_at(self.entries@, i as int, asset@);
                }
                return self.entries[i].price;
            }
            i = i + 1;
        }
        proof {
            lemma_lookup_missing(self.entries@, asset@);
        }
        0
    }
}

} // verus!
