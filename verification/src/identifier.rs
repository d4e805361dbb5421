//! Namespaced identifiers (`namespace:path`) and their byte-wise order.

use vstd::prelude::*;

use vstd::utf8::encode_utf8;

verus! {

/// A namespaced key such as `minecraft:iron_pickaxe`.
#[derive(Debug, Clone, PartialEq, Eq, Hash)]
pub struct Identifier {
    pub namespace: String,
    pub path: String,
}

/// An identifier as the UTF-8 bytes of its two parts.
pub struct IdentifierModel {
    pub namespace: Seq<u8>,
    pub path: Seq<u8>,
}

impl View for Identifier {
    type V = IdentifierModel;

    open spec fn view(&self) -> IdentifierModel {
        IdentifierModel { namespace: encode_utf8(self.namespace@), path: encode_utf8(self.path@) }
    }
}

/// Lexicographic order of byte strings (a proper prefix comes first).
pub open spec fn bytes_less(a: Seq<u8>, b: Seq<u8>) -> bool
    decreases a.len(),
{
    if a.len() == 0 {
        b.len() > 0
    } else if b.len() == 0 {
        false
    } else if a[0] != b[0] {
        a[0] < b[0]
    } else {
        bytes_less(a.drop_first(), b.drop_first())
    }
}

/// Identifiers are ordered by namespace, then by path.
pub open spec fn key_less(a: IdentifierModel, b: IdentifierModel) -> bool {
    bytes_less(a.namespace, b.namespace) || (a.namespace == b.namespace && bytes_less(
        a.path,
        b.path,
    ))
}

/// Result of comparing two keys.
#[derive(Debug, Clone, Copy, PartialEq, Eq, Structural)]
pub enum KeyOrder {
    Less,
    Equal,
    Greater,
}

proof fn lemma_bytes_less_skip(a: Seq<u8>, b: Seq<u8>, i: int)
    requires
        0 <= i < a.len(),
        i < b.len(),
        a[i] == b[i],
    ensures
        bytes_less(a.skip(i), b.skip(i)) == bytes_less(a.skip(i + 1), b.skip(i + 1)),
{
    assert(a.skip(i).drop_first() =~= a.skip(i + 1));
    assert(b.skip(i).drop_first() =~= b.skip(i + 1));
}

/// No byte string precedes itself, and two different ones are ordered one way.
pub proof fn lemma_bytes_less_trichotomy(a: Seq<u8>, b: Seq<u8>)
    ensures
        !bytes_less(a, a),
        a != b ==> bytes_less(a, b) || bytes_less(b, a),
        !(bytes_less(a, b) && bytes_less(b, a)),
    decreases a.len(),
{
    if a.len() > 0 {
        lemma_bytes_less_trichotomy(a.drop_first(), a.drop_first());
        if b.len() > 0 {
            lemma_bytes_less_trichotomy(a.drop_first(), b.drop_first());
            if a != b && a[0] == b[0] {
                assert(a.drop_first() != b.drop_first()) by {
                    if a.drop_first() == b.drop_first() {
                        assert(a =~= seq![a[0]] + a.drop_first());
                        assert(b =~= seq![b[0]] + b.drop_first());
                    }
                }
            }
        }
    } else if b.len() == 0 {
        assert(a =~= b);
    }
}

/// Keys are totally and strictly ordered.
pub proof fn lemma_key_less_trichotomy(a: IdentifierModel, b: IdentifierModel)
    ensures
        !key_less(a, a),
        a != b ==> key_less(a, b) || key_less(b, a),
        !(key_less(a, b) && key_less(b, a)),
{
    lemma_bytes_less_trichotomy(a.namespace, b.namespace);
    lemma_bytes_less_trichotomy(a.path, b.path);
    lemma_bytes_less_trichotomy(a.namespace, a.namespace);
    lemma_bytes_less_trichotomy(a.path, a.path);
}

/// The byte-string order is transitive.
pub proof fn lemma_bytes_less_transitive(a: Seq<u8>, b: Seq<u8>, c: Seq<u8>)
    requires
        bytes_less(a, b),
        bytes_less(b, c),
    ensures
        bytes_less(a, c),
    decreases a.len(),
{
    if a.len() > 0 && b.len() > 0 && c.len() > 0 && a[0] == b[0] && b[0] == c[0] {
        lemma_bytes_less_transitive(a.drop_first(), b.drop_first(), c.drop_first());
    }
}

/// The key order is transitive.
pub proof fn lemma_key_less_transitive(a: IdentifierModel, b: IdentifierModel, c: IdentifierModel)
    requires
        key_less(a, b),
        key_less(b, c),
    ensures
        key_less(a, c),
{
    lemma_bytes_less_trichotomy(a.namespace, a.namespace);
    lemma_bytes_less_trichotomy(b.namespace, b.namespace);
    if bytes_less(a.namespace, b.namespace) && bytes_less(b.namespace, c.namespace) {
        lemma_bytes_less_transitive(a.namespace, b.namespace, c.namespace);
    }
    if a.namespace == b.namespace && b.namespace == c.namespace {
        lemma_bytes_less_transitive(a.path, b.path, c.path);
    }
}

/// Compares two byte strings lexicographically.
pub fn compare_bytes(a: &[u8], b: &[u8]) -> (r: KeyOrder)
    ensures
        (r == KeyOrder::Less) == bytes_less(a@, b@),
        (r == KeyOrder::Equal) == (a@ == b@),
        (r == KeyOrder::Greater) == bytes_less(b@, a@),
{
    proof {
        lemma_bytes_less_trichotomy(a@, b@);
        assert(a@.skip(0) =~= a@);
        assert(b@.skip(0) =~= b@);
    }
    let mut i: usize = 0;
    while i < a.len() && i < b.len()
        invariant
            i <= a@.len(),
            i <= b@.len(),
            forall|j: int| 0 <= j < i ==> a@[j] == b@[j],
            bytes_less(a@, b@) == bytes_less(a@.skip(i as int), b@.skip(i as int)),
            bytes_less(b@, a@) == bytes_less(b@.skip(i as int), a@.skip(i as int)),
        decreases a@.len() - i,
    {
        if a[i] != b[i] {
            assert(a@.skip(i as int)[0] == a@[i as int]);
            assert(b@.skip(i as int)[0] == b@[i as int]);
            if a[i] < b[i] {
                return KeyOrder::Less;
            } else {
                return KeyOrder::Greater;
            }
        }
        proof {
            lemma_bytes_less_skip(a@, b@, i as int);
            lemma_bytes_less_skip(b@, a@, i as int);
        }
        i += 1;
    }
    if i < b.len() {
        KeyOrder::Less
    } else if i < a.len() {
        KeyOrder::Greater
    } else {
        assert(a@ =~= b@);
        KeyOrder::Equal
    }
}

impl Identifier {
    /// The identifier `namespace:path`.
    pub fn new(namespace: &str, path: &str) -> (r: Identifier)
        ensures
            r.namespace@ == namespace@,
            r.path@ == path@,
    {
        Identifier { namespace: namespace.to_owned(), path: path.to_owned() }
    }

    /// The identifier `minecraft:path`.
    pub fn vanilla(path: &str) -> (r: Identifier)
        ensures
            r.namespace@ == "minecraft"@,
            r.path@ == path@,
    {
        Identifier { namespace: "minecraft".to_owned(), path: path.to_owned() }
    }

    /// A copy of this identifier.
    pub fn duplicate(&self) -> (r: Identifier)
        ensures
            r@ == self@,
            r.namespace@ == self.namespace@,
            r.path@ == self.path@,
    {
        Identifier { namespace: self.namespace.clone(), path: self.path.clone() }
    }

    /// Compares by namespace, then by path, byte by byte.
    pub fn compare_to(&self, other: &Identifier) -> (r: KeyOrder)
        ensures
            (r == KeyOrder::Less) == key_less(self@, other@),
            (r == KeyOrder::Equal) == (self@ == other@),
            (r == KeyOrder::Greater) == key_less(other@, self@),
    {
        proof {
            lemma_key_less_trichotomy(self@, other@);
        }
        match compare_bytes(self.namespace.as_str().as_bytes(), other.namespace.as_str().as_bytes()) {
            KeyOrder::Equal => {
                let r = compare_bytes(self.path.as_str().as_bytes(), other.path.as_str().as_bytes());
                proof {
                    if r == KeyOrder::Equal {
                        assert(self@ =~= other@);
                    }
                }
                r
            },
            ord => ord,
        }
    }

    /// Whether both identifiers name the same key.
    pub fn same_key(&self, other: &Identifier) -> (r: bool)
        ensures
            r == (self@ == other@),
    {
        self.compare_to(other) == KeyOrder::Equal
    }
}

} // verus!
