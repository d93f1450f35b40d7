//! The credit gate: given a model identifier and the caller's remaining
//! balance, approve or deny the turn and compute the post-turn balance.
//!
//! The check is pure: it is consulted once per turn, before any resource
//! is acquired, with the balance snapshot taken at turn start. An unknown
//! model is a hard rejection, never a zero-cost default.

use vstd::prelude::*;
use crate::bytes::{ascii_bytes, bytes_eq, lit_bytes};

verus! {

/// Why a turn was refused.
#[derive(Debug, Clone, Copy, PartialEq, Eq, Structural)]
pub enum CreditError {
    /// The model identifier is not in the price table.
    InvalidModel,
    /// The model's price exceeds the remaining balance.
    InsufficientCredit,
}

/// An approved turn: the price charged and the balance left afterwards.
#[derive(Debug, Clone, Copy, PartialEq, Eq, Structural)]
pub struct Approval {
    pub cost: i64,
    pub remaining: i64,
}

/// Price of `model` in `entries`, first match wins.
pub open spec fn price_in(entries: Seq<(Vec<u8>, i64)>, model: Seq<u8>) -> Option<i64>
    decreases entries.len(),
{
    if entries.len() == 0 {
        None
    } else if entries[0].0@ == model {
        Some(entries[0].1)
    } else {
        price_in(entries.drop_first(), model)
    }
}

/// The price table the credit check consults: model identifiers (UTF-8 bytes)
/// with their fixed, non-negative per-turn prices. Injected at
/// construction; there is no process-wide table.
pub struct PriceTable {
    entries: Vec<(Vec<u8>, i64)>,
}

impl PriceTable {
    /// Every listed price is non-negative.
    pub closed spec fn wf(&self) -> bool {
        forall|i: int| 0 <= i < self.entries@.len() ==> (#[trigger] self.entries@[i]).1 >= 0
    }

    /// The table's pricing function.
    pub closed spec fn spec_price(&self, model: Seq<u8>) -> Option<i64> {
        price_in(self.entries@, model)
    }

    /// An empty table: every model is unknown.
    pub fn new() -> (t: Self)
        ensures
            t.wf(),
            forall|m: Seq<u8>| t.spec_price(m) is None,
    {
        PriceTable { entries: Vec::new() }
    }

    /// Add a model at the end of the table; earlier entries keep priority.
    pub fn add(&mut self, model: Vec<u8>, price: i64)
        requires
            old(self).wf(),
            price >= 0,
        ensures
            final(self).wf(),
            forall|m: Seq<u8>|
                final(self).spec_price(m) == if old(self).spec_price(m) is Some {
                    old(self).spec_price(m)
                } else if m == model@ {
                    Some(price)
                } else {
                    None::<i64>
                },
    {
        let ghost before = self.entries@;
        let ghost added = model@;
        self.entries.push((model, price));
        proof {
            assert forall|m: Seq<u8>|
                price_in(self.entries@, m) == if price_in(before, m) is Some {
                    price_in(before, m)
                } else if m == added {
                    Some(price)
                } else {
                    None::<i64>
                } by {
                lemma_price_in_push(before, self.entries@.last().0, price, m);
                assert(self.entries@ =~= before.push(self.entries@.last()));
            }
        }
    }

    /// Price of `model`, or `None` when unknown.
    pub fn price(&self, model: &[u8]) -> (r: Option<i64>)
        ensures
            r == self.spec_price(model@),
    {
        let n = self.entries.len();
        let mut i: usize = 0;
        proof {
            assert(self.entries@.skip(0) =~= self.entries@);
        }
        while i < n
            invariant
                0 <= i <= n,
                n == self.entries@.len(),
                price_in(self.entries@, model@) == price_in(self.entries@.skip(i as int), model@),
            decreases n - i,
        {
            proof {
                assert(self.entries@.skip(i as int).len() > 0);
                assert(self.entries@.skip(i as int)[0] == self.entries@[i as int]);
                assert(self.entries@.skip(i as int).drop_first() =~= self.entries@.skip(i + 1));
            }
            if bytes_eq(self.entries[i].0.as_slice(), model) {
                return Some(self.entries[i].1);
            }
            i = i + 1;
        }
        proof {
            assert(self.entries@.skip(n as int).len() == 0);
        }
        None
    }

    /// The credit check itself. Approves exactly when the model is priced and its
    /// price does not exceed the balance; an approval charges the price
    /// and reports `balance - cost` as the remaining balance.
    pub fn check(&self, model: &[u8], balance: i64) -> (r: Result<Approval, CreditError>)
        requires
            self.wf(),
            balance >= 0,
        ensures
            r is Ok <==> (self.spec_price(model@) matches Some(c) && c <= balance),
            r matches Ok(a) ==> {
                &&& self.spec_price(model@) == Some(a.cost)
                &&& a.remaining == balance - a.cost
                &&& 0 <= a.remaining <= balance
            },
            r == Err::<Approval, CreditError>(CreditError::InvalidModel) <==> self.spec_price(
                model@,
            ) is None,
            r == Err::<Approval, CreditError>(CreditError::InsufficientCredit) <==> (
            self.spec_price(model@) matches Some(c) && c > balance),
    {
        proof {
            lemma_price_in_wf(self.entries@, model@);
        }
        match self.price(model) {
            None => Err(CreditError::InvalidModel),
            Some(cost) => {
                if cost > balance {
                    Err(CreditError::InsufficientCredit)
                } else {
                    Ok(Approval { cost, remaining: balance - cost })
                }
            },
        }
    }
}

/// The four models the service prices out of the box, and nothing else.
pub fn default_price_table() -> (t: PriceTable)
    ensures
        t.wf(),
        t.spec_price(lit_bytes("gpt-4o")) == Some(15i64),
        t.spec_price(lit_bytes("gpt-4o-2024-05-13")) == Some(15i64),
        t.spec_price(lit_bytes("gpt-4o-2024-08-06")) == Some(15i64),
        t.spec_price(lit_bytes("gpt-4o-mini")) == Some(1i64),
        forall|m: Seq<u8>|
            m != lit_bytes("gpt-4o") && m != lit_bytes("gpt-4o-2024-05-13") && m != lit_bytes(
                "gpt-4o-2024-08-06",
            ) && m != lit_bytes("gpt-4o-mini") ==> t.spec_price(m) is None,
{
    proof {
        reveal_strlit("gpt-4o");
        reveal_strlit("gpt-4o-2024-05-13");
        reveal_strlit("gpt-4o-2024-08-06");
        reveal_strlit("gpt-4o-mini");
    }
    let mut t = PriceTable::new();
    t.add(ascii_bytes("gpt-4o"), 15);
    proof {
        assert(t.spec_price(lit_bytes("gpt-4o")) == Some(15i64));
    }
    t.add(ascii_bytes("gpt-4o-2024-05-13"), 15);
    proof {
        assert(t.spec_price(lit_bytes("gpt-4o-2024-05-13")) == Some(15i64));
    }
    t.add(ascii_bytes("gpt-4o-2024-08-06"), 15);
    proof {
        assert(lit_bytes("gpt-4o-2024-05-13") != lit_bytes("gpt-4o-2024-08-06")) by {
            assert(lit_bytes("gpt-4o-2024-05-13")[13] != lit_bytes("gpt-4o-2024-08-06")[13]);
        }
        assert(t.spec_price(lit_bytes("gpt-4o-2024-08-06")) == Some(15i64));
    }
    t.add(ascii_bytes("gpt-4o-mini"), 1);
    proof {
        assert(lit_bytes("gpt-4o-mini").len() == 11);
        assert(lit_bytes("gpt-4o").len() == 6);
        assert(lit_bytes("gpt-4o-2024-05-13").len() == 17);
        assert(lit_bytes("gpt-4o-2024-08-06").len() == 17);
        assert(t.spec_price(lit_bytes("gpt-4o-mini")) == Some(1i64));
    }
    t
}

/// A priced model never prices below zero in a well-formed table.
proof fn lemma_price_in_wf(entries: Seq<(Vec<u8>, i64)>, model: Seq<u8>)
    requires
        forall|i: int| 0 <= i < entries.len() ==> (#[trigger] entries[i]).1 >= 0,
    ensures
        price_in(entries, model) matches Some(c) ==> c >= 0,
    decreases entries.len(),
{
    if entries.len() > 0 && entries[0].0@ != model {
        lemma_price_in_wf(entries.drop_first(), model);
    }
}

/// Appending an entry changes the pricing function only where the table
/// was silent and the new model matches.
proof fn lemma_price_in_push(entries: Seq<(Vec<u8>, i64)>, model: Vec<u8>, price: i64, m: Seq<u8>)
    ensures
        price_in(entries.push((model, price)), m) == if price_in(entries, m) is Some {
            price_in(entries, m)
        } else if m == model@ {
            Some(price)
        } else {
            None::<i64>
        },
    decreases entries.len(),
{
    if entries.len() == 0 {
        assert(entries.push((model, price)).drop_first() =~= Seq::<(Vec<u8>, i64)>::empty());
    } else {
        assert(entries.push((model, price)).drop_first() =~= entries.drop_first().push(
            (model, price),
        ));
        lemma_price_in_push(entries.drop_first(), model, price, m);
    }
}

} // verus!
