use vstd::hash_map::{HashMapWithView, StringHashMap};
use vstd::prelude::*;

use crate::analyzer::address::NamedVarAddress;
use crate::lexer::token::{Token, TokenModel, TokenType};

verus! {

broadcast use vstd::std_specs::hash::group_hash_axioms;

/// A map keyed by variable addresses: for each scope, a map from names to
/// values.
#[verifier::reject_recursive_types(V)]
pub struct AddressMap<V> {
    by_scope: HashMapWithView<u32, StringHashMap<V>>,
}

impl<V> View for AddressMap<V> {
    type V = Map<(Seq<char>, u32), V>;

    closed spec fn view(&self) -> Map<(Seq<char>, u32), V> {
        Map::new(
            |k: (Seq<char>, u32)|
                self.by_scope@.contains_key(k.1) && self.by_scope@[k.1]@.contains_key(k.0),
            |k: (Seq<char>, u32)| self.by_scope@[k.1]@[k.0],
        )
    }
}

impl<V> AddressMap<V> {
    /// An empty map.
    pub fn new() -> (map: Self)
        ensures
            map@ == Map::<(Seq<char>, u32), V>::empty(),
    {
        let map = AddressMap { by_scope: HashMapWithView::new() };
        assert(map@ =~= Map::<(Seq<char>, u32), V>::empty());
        map
    }

    /// Whether the map has a value at `addr`.
    pub fn contains_key(&self, addr: &NamedVarAddress) -> (found: bool)
        ensures
            found == self@.contains_key(addr@),
    {
        match self.by_scope.get(&addr.scope_addr.n) {
            None => false,
            Some(inner) => inner.contains_key(addr.name.as_str()),
        }
    }

    /// The value at `addr`, if any.
    pub fn get(&self, addr: &NamedVarAddress) -> (value: Option<&V>)
        ensures
            match value {
                Some(v) => self@.contains_key(addr@) && *v == self@[addr@],
                None => !self@.contains_key(addr@),
            },
    {
        match self.by_scope.get(&addr.scope_addr.n) {
            None => None,
            Some(inner) => inner.get(addr.name.as_str()),
        }
    }

    /// Sets the value at `addr`.
    pub fn insert(&mut self, addr: NamedVarAddress, value: V)
        ensures
            final(self)@ == old(self)@.insert(addr@, value),
    {
        let ghost before = self@;
        let n = addr.scope_addr.n;
        let mut inner = match self.by_scope.remove(&n) {
            Some(inner) => inner,
            None => StringHashMap::new(),
        };
        inner.insert(addr.name, value);
        self.by_scope.insert(n, inner);
        assert(self@ =~= before.insert(addr@, value));
    }
}

/// A set of tokens, each kept once.
pub struct TokenSet {
    tokens: Vec<Token>,
}

impl View for TokenSet {
    type V = Set<TokenModel>;

    closed spec fn view(&self) -> Set<TokenModel> {
        self.tokens@.map_values(|t: Token| t@).to_set()
    }
}

impl TokenSet {
    /// No token is kept twice.
    #[verifier::type_invariant]
    closed spec fn tokens_distinct(&self) -> bool {
        forall|i: int, j: int|
            0 <= i < j < self.tokens@.len() ==> #[trigger] self.tokens@[i]@ != #[trigger] self.tokens@[j]@
    }

    /// The empty set.
    pub fn new() -> (set: Self)
        ensures
            set@ == Set::<TokenModel>::empty(),
    {
        let set = TokenSet { tokens: Vec::new() };
        assert(set@ =~= Set::<TokenModel>::empty()) by {
            assert(set.tokens@.map_values(|t: Token| t@) =~= Seq::<TokenModel>::empty());
        }
        set
    }

    /// A copy of the set.
    pub fn copy(&self) -> (copy: Self)
        ensures
            copy@ == self@,
    {
        proof {
            use_type_invariant(self);
        }
        let mut tokens: Vec<Token> = Vec::new();
        let mut i: usize = 0;
        while i < self.tokens.len()
            invariant
                i <= self.tokens@.len(),
                tokens@ == self.tokens@.take(i as int),
            decreases self.tokens@.len() - i,
        {
            tokens.push(self.tokens[i].clone());
            assert(self.tokens@.take(i + 1) =~= self.tokens@.take(i as int).push(self.tokens@[i as int]));
            i = i + 1;
        }
        assert(self.tokens@.take(i as int) =~= self.tokens@);
        TokenSet { tokens }
    }

    /// Adds a token.
    pub fn insert(&mut self, token: Token)
        ensures
            final(self)@ == old(self)@.insert(token@),
    {
        proof {
            use_type_invariant(&*self);
        }
        let ghost before = self.tokens@.map_values(|t: Token| t@);
        let mut i: usize = 0;
        while i < self.tokens.len()
            invariant
                i <= self.tokens@.len(),
                before == self.tokens@.map_values(|t: Token| t@),
                forall|j: int| 0 <= j < i ==> self.tokens@[j]@ != token@,
                forall|a: int, b: int|
                    0 <= a < b < self.tokens@.len() ==> #[trigger] self.tokens@[a]@
                        != #[trigger] self.tokens@[b]@,
            decreases self.tokens@.len() - i,
        {
            if same_token(&self.tokens[i], &token) {
                assert(before[i as int] == token@);
                assert(before.to_set().contains(token@));
                assert(before.to_set().insert(token@) =~= before.to_set());
                return;
            }
            i = i + 1;
        }
        let mut tokens: Vec<Token> = Vec::new();
        std::mem::swap(&mut tokens, &mut self.tokens);
        let ghost kept = tokens@;
        tokens.push(token);
        assert forall|a: int, b: int|
            0 <= a < b < tokens@.len() implies #[trigger] tokens@[a]@ != #[trigger] tokens@[b]@ by {
            assert(tokens@[a] == kept[a]);
            if b < kept.len() {
                assert(tokens@[b] == kept[b]);
            }
        }
        self.tokens = tokens;
        assert(self.tokens@.map_values(|t: Token| t@) =~= before.push(token@));
        assert(before.push(token@).to_set() =~= before.to_set().insert(token@)) by {
            assert forall|x: TokenModel| before.push(token@).to_set().contains(x) implies before.to_set().insert(token@).contains(x) by {
                let j = choose|j: int| 0 <= j < before.push(token@).len() && before.push(token@)[j] == x;
                if j < before.len() {
                    assert(before[j] == x);
                }
            }
            assert forall|x: TokenModel| before.to_set().insert(token@).contains(x) implies before.push(token@).to_set().contains(x) by {
                if x == token@ {
                    assert(before.push(token@)[before.len() as int] == x);
                } else {
                    let j = choose|j: int| 0 <= j < before.len() && before[j] == x;
                    assert(before.push(token@)[j] == x);
                }
            }
        }
    }
}

/// Whether two token types are the same.
pub fn same_token_type(a: &TokenType, b: &TokenType) -> (same: bool)
    ensures
        same == (a@ == b@),
{
    match a {
        TokenType::Identifier(x) => match b {
            TokenType::Identifier(y) => *x == *y,
            _ => false,
        },
        TokenType::Number(x) => match b {
            TokenType::Number(y) => *x == *y,
            _ => false,
        },
        TokenType::String(x) => match b {
            TokenType::String(y) => *x == *y,
            _ => false,
        },
        TokenType::Colon => matches!(b, TokenType::Colon),
        TokenType::Comma => matches!(b, TokenType::Comma),
        TokenType::Divide => matches!(b, TokenType::Divide),
        TokenType::Equals => matches!(b, TokenType::Equals),
        TokenType::GreaterThan => matches!(b, TokenType::GreaterThan),
        TokenType::GreaterThanEquals => matches!(b, TokenType::GreaterThanEquals),
        TokenType::Include => matches!(b, TokenType::Include),
        TokenType::LeftBrace => matches!(b, TokenType::LeftBrace),
        TokenType::LeftBracket => matches!(b, TokenType::LeftBracket),
        TokenType::LeftParen => matches!(b, TokenType::LeftParen),
        TokenType::LessThan => matches!(b, TokenType::LessThan),
        TokenType::LessThanEquals => matches!(b, TokenType::LessThanEquals),
        TokenType::Minus => matches!(b, TokenType::Minus),
        TokenType::Multiply => matches!(b, TokenType::Multiply),
        TokenType::Newline => matches!(b, TokenType::Newline),
        TokenType::Plus => matches!(b, TokenType::Plus),
        TokenType::RightBrace => matches!(b, TokenType::RightBrace),
        TokenType::RightBracket => matches!(b, TokenType::RightBracket),
        TokenType::RightParen => matches!(b, TokenType::RightParen),
        TokenType::Whitespace => matches!(b, TokenType::Whitespace),
    }
}

/// Whether two tokens are the same: same type, same place.
pub fn same_token(a: &Token, b: &Token) -> (same: bool)
    ensures
        same == (a@ == b@),
{
    same_token_type(&a.token_type, &b.token_type) && a.source_loc.pos == b.source_loc.pos
        && a.source_loc.line == b.source_loc.line && a.source_loc.column == b.source_loc.column
        && a.source_loc.length == b.source_loc.length && a.source_loc.doc_loc.uri
        == b.source_loc.doc_loc.uri
}

} // verus!
