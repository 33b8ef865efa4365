//! Token registry: metadata for every token the engine knows, keyed by a
//! monotonically assigned `token_id`.

use vstd::prelude::*;

use crate::bignat::BigNat;

verus! {

/// What kind of ledger stands behind a token.
pub enum TokenKind {
    /// A token on an external ledger, addressed by its canister id.
    IC,
    /// A liquidity-provider token derived from a pool of two other tokens.
    LP { token_0_id: u32, token_1_id: u32 },
}

/// Metadata of one token.  `fee` is the ledger's flat per-transfer fee in
/// the token's smallest unit; `decimals` is fixed per ledger.
pub struct Token {
    pub token_id: u32,
    pub kind: TokenKind,
    pub chain: String,
    pub symbol: String,
    pub address: String,
    pub decimals: u8,
    pub fee: BigNat,
    pub on_kong: bool,
}

impl Token {
    pub open spec fn is_lp(self) -> bool {
        self.kind is LP
    }
}

/// The first token answering to a symbol or address, scanning from the
/// front of the registry.
pub open spec fn find_by_text(tokens: Seq<Token>, text: Seq<char>) -> Option<Token>
    decreases tokens.len(),
{
    if tokens.len() == 0 {
        None
    } else if tokens[0].symbol@ == text || tokens[0].address@ == text {
        Some(tokens[0])
    } else {
        find_by_text(tokens.drop_first(), text)
    }
}

/// Skipping a matchless prefix does not change what is found.
pub proof fn lemma_find_by_text_skip(tokens: Seq<Token>, text: Seq<char>, i: int)
    requires
        0 <= i <= tokens.len(),
        forall|j: int|
            0 <= j < i ==> (#[trigger] tokens[j]).symbol@ != text && tokens[j].address@ != text,
    ensures
        find_by_text(tokens, text) == find_by_text(tokens.skip(i), text),
    decreases i,
{
    if i > 0 {
        assert(tokens.len() > 0);
        assert(tokens[0].symbol@ != text && tokens[0].address@ != text);
        assert(find_by_text(tokens, text) == find_by_text(tokens.drop_first(), text));
        assert forall|j: int|
            0 <= j < i - 1 implies (#[trigger] tokens.drop_first()[j]).symbol@ != text
            && tokens.drop_first()[j].address@ != text by {
            assert(tokens.drop_first()[j] == tokens[j + 1]);
        }
        lemma_find_by_text_skip(tokens.drop_first(), text, i - 1);
        assert(tokens.drop_first().skip(i - 1) =~= tokens.skip(i));
    } else {
        assert(tokens.skip(0) =~= tokens);
    }
}

/// What a text lookup finds is a member of the registry.
pub proof fn lemma_find_by_text_mem(tokens: Seq<Token>, text: Seq<char>)
    requires
        find_by_text(tokens, text) is Some,
    ensures
        exists|k: int|
            0 <= k < tokens.len() && tokens[k] == find_by_text(tokens, text)->Some_0,
    decreases tokens.len(),
{
    if tokens.len() > 0 {
        if tokens[0].symbol@ == text || tokens[0].address@ == text {
            assert(tokens[0] == find_by_text(tokens, text)->Some_0);
        } else {
            lemma_find_by_text_mem(tokens.drop_first(), text);
            let k = choose|k: int|
                0 <= k < tokens.drop_first().len() && tokens.drop_first()[k] == find_by_text(
                    tokens.drop_first(),
                    text,
                )->Some_0;
            assert(tokens[k + 1] == find_by_text(tokens, text)->Some_0);
        }
    }
}

/// The registry of all tokens.
pub struct TokenRegistry {
    pub tokens: Vec<Token>,
    pub next_token_id: u32,
}

impl TokenRegistry {
    /// Ids are unique, non-zero, and below the allocation counter.
    pub open spec fn wf(self) -> bool {
        &&& self.next_token_id >= 1
        &&& forall|i: int, j: int|
            0 <= i < j < self.tokens@.len() ==> self.tokens@[i].token_id
                != self.tokens@[j].token_id
        &&& forall|i: int|
            0 <= i < self.tokens@.len() ==> 0 < #[trigger] self.tokens@[i].token_id
                < self.next_token_id
    }

    pub open spec fn spec_contains_id(self, token_id: u32) -> bool {
        exists|i: int| 0 <= i < self.tokens@.len() && #[trigger] self.tokens@[i].token_id == token_id
    }

    pub open spec fn spec_id_index(self, token_id: u32) -> int {
        choose|i: int| 0 <= i < self.tokens@.len() && #[trigger] self.tokens@[i].token_id == token_id
    }

    /// In a well-formed registry a matching id pins down its index.
    pub proof fn lemma_id_unique(self, token_id: u32, i: int)
        requires
            self.wf(),
            0 <= i < self.tokens@.len(),
            self.tokens@[i].token_id == token_id,
        ensures
            self.spec_contains_id(token_id),
            self.spec_id_index(token_id) == i,
    {
        assert(self.spec_contains_id(token_id));
        let k = self.spec_id_index(token_id);
        assert(0 <= k < self.tokens@.len() && self.tokens@[k].token_id == token_id);
        if k != i {
            let x: int = if k < i {
                k
            } else {
                i
            };
            let y: int = if k < i {
                i
            } else {
                k
            };
            assert(self.tokens@[x].token_id != self.tokens@[y].token_id);
            assert(false);
        }
    }

    pub fn new() -> (r: TokenRegistry)
        ensures
            r.wf(),
            r.tokens@.len() == 0,
            r.next_token_id == 1,
    {
        TokenRegistry { tokens: Vec::new(), next_token_id: 1 }
    }

    pub fn get_by_token_id(&self, token_id: u32) -> (r: Option<&Token>)
        ensures
            r is Some <==> self.spec_contains_id(token_id),
            r matches Some(t) ==> exists|i: int|
                0 <= i < self.tokens@.len() && self.tokens@[i] == *t && t.token_id == token_id,
    {
        let mut i: usize = 0;
        while i < self.tokens.len()
            invariant
                i <= self.tokens@.len(),
                forall|j: int| 0 <= j < i ==> #[trigger] self.tokens@[j].token_id != token_id,
            decreases self.tokens@.len() - i,
        {
            if self.tokens[i].token_id == token_id {
                return Some(&self.tokens[i]);
            }
            i = i + 1;
        }
        None
    }

    /// Look a token up by symbol or address, as callers name tokens: the
    /// first match wins.
    pub fn get_by_text(&self, text: &String) -> (r: Option<&Token>)
        ensures
            r matches Some(t) ==> exists|i: int|
                0 <= i < self.tokens@.len() && self.tokens@[i] == *t,
            r is None ==> forall|i: int|
                0 <= i < self.tokens@.len() ==> #[trigger] self.tokens@[i].symbol@ != text@,
            r is None ==> forall|i: int|
                0 <= i < self.tokens@.len() ==> #[trigger] self.tokens@[i].address@ != text@,
            r matches Some(t) ==> t.symbol@ == text@ || t.address@ == text@,
            r is Some <==> find_by_text(self.tokens@, text@) is Some,
            r matches Some(t) ==> find_by_text(self.tokens@, text@) == Some(*t),
    {
        let mut i: usize = 0;
        while i < self.tokens.len()
            invariant
                i <= self.tokens@.len(),
                forall|j: int| 0 <= j < i ==> #[trigger] self.tokens@[j].symbol@ != text@,
                forall|j: int| 0 <= j < i ==> #[trigger] self.tokens@[j].address@ != text@,
            decreases self.tokens@.len() - i,
        {
            if *text == self.tokens[i].symbol || *text == self.tokens[i].address {
                proof {
                    lemma_find_by_text_skip(self.tokens@, text@, i as int);
                    assert(self.tokens@.skip(i as int)[0] == self.tokens@[i as int]);
                }
                return Some(&self.tokens[i]);
            }
            proof {
                assert(self.tokens@[i as int].symbol@ != text@);
                assert(self.tokens@[i as int].address@ != text@);
            }
            i = i + 1;
        }
        proof {
            lemma_find_by_text_skip(self.tokens@, text@, self.tokens@.len() as int);
        }
        None
    }

    /// Whether some token already answers to this symbol or address.
    pub fn exists_by_text(&self, text: &String) -> (r: bool)
        ensures
            r == exists|i: int|
                0 <= i < self.tokens@.len() && (#[trigger] self.tokens@[i].symbol@ == text@
                    || self.tokens@[i].address@ == text@),
    {
        let found = self.get_by_text(text);
        found.is_some()
    }

    /// Register a token, assigning it the next id.  The caller's
    /// `token_id` field is overwritten.
    pub fn insert(&mut self, token: Token) -> (r: u32)
        requires
            old(self).wf(),
            old(self).next_token_id < u32::MAX,
        ensures
            final(self).wf(),
            r == old(self).next_token_id,
            final(self).next_token_id == old(self).next_token_id + 1,
            final(self).tokens@.len() == old(self).tokens@.len() + 1,
            forall|i: int|
                0 <= i < old(self).tokens@.len() ==> final(self).tokens@[i] == old(
                    self,
                ).tokens@[i],
            final(self).tokens@.last() == (Token { token_id: r, ..token }),
            final(self).spec_contains_id(r),
    {
        let token_id = self.next_token_id;
        let inserted = Token { token_id, ..token };
        self.tokens.push(inserted);
        self.next_token_id = token_id + 1;
        proof {
            let s = self.tokens@;
            assert(s[s.len() - 1].token_id == token_id);
            assert forall|i: int, j: int|
                0 <= i < j < s.len() implies s[i].token_id != s[j].token_id by {
                if j < s.len() - 1 {
                    assert(s[i] == old(self).tokens@[i]);
                    assert(s[j] == old(self).tokens@[j]);
                } else {
                    assert(s[i] == old(self).tokens@[i]);
                    assert(old(self).tokens@[i].token_id < token_id);
                }
            }
            assert forall|i: int|
                0 <= i < s.len() implies 0 < #[trigger] s[i].token_id
                    < self.next_token_id by {
                if i < s.len() - 1 {
                    assert(s[i] == old(self).tokens@[i]);
                    assert(0 < old(self).tokens@[i].token_id < token_id);
                }
            }
        }
        token_id
    }
}

} // verus!
