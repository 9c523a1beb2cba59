//! The registry of hash algorithms: an ordered catalog of standalone
//! algorithms and named families, with exact lookup of a leaf by its name.

use crate::error::DigestError;
use crate::text::str_eq;
use vstd::prelude::*;
use vstd::string::*;

verus! {

/// A concrete hash algorithm that a digest can be computed with.
#[derive(Debug, Clone, Copy, PartialEq, Eq)]
pub enum HashKind {
    Md5,
    Sha1,
    Sha224,
    Sha256,
    Sha384,
    Sha512,
}

/// One entry of a catalog as it is declared.
#[derive(Debug, PartialEq, Eq)]
pub enum Algorithm {
    /// A standalone algorithm.
    Single(String),
    /// A named group of algorithms; the group's own name selects nothing.
    Family { name: String, members: Vec<String> },
}

/// The mathematical value of a catalog entry.
pub enum Entry {
    Single(Seq<char>),
    Family { name: Seq<char>, members: Seq<Seq<char>> },
}

/// The characters of each of `names`, in order.
pub open spec fn names_of(names: Seq<String>) -> Seq<Seq<char>> {
    names.map_values(|name: String| name@)
}

impl View for Algorithm {
    type V = Entry;

    open spec fn view(&self) -> Entry {
        match *self {
            Algorithm::Single(name) => Entry::Single(name@),
            Algorithm::Family { name, members } => Entry::Family {
                name: name@,
                members: names_of(members@),
            },
        }
    }
}

impl Entry {
    /// The names that this entry offers for lookup: its own name for a
    /// standalone algorithm, the members' names for a family.
    pub open spec fn leaves(self) -> Seq<Seq<char>> {
        match self {
            Entry::Single(name) => seq![name],
            Entry::Family { name, members } => members,
        }
    }
}

/// The values of the entries of a catalog, in order.
pub open spec fn catalog_view(entries: Seq<Algorithm>) -> Seq<Entry> {
    entries.map_values(|entry: Algorithm| entry@)
}

/// All the leaves of a catalog in declaration order: every standalone name
/// and every member of every family, and no family's own name.
pub open spec fn leaf_names(catalog: Seq<Entry>) -> Seq<Seq<char>>
    decreases catalog.len(),
{
    if catalog.len() == 0 {
        Seq::empty()
    } else {
        leaf_names(catalog.drop_last()) + catalog.last().leaves()
    }
}

/// How many entries of a catalog are standalone algorithms.
pub open spec fn standalone_count(catalog: Seq<Entry>) -> nat
    decreases catalog.len(),
{
    if catalog.len() == 0 {
        0
    } else {
        standalone_count(catalog.drop_last()) + if catalog.last() is Single {
            1nat
        } else {
            0nat
        }
    }
}

/// How many members the families of a catalog have in all.
pub open spec fn member_count(catalog: Seq<Entry>) -> nat
    decreases catalog.len(),
{
    if catalog.len() == 0 {
        0
    } else {
        member_count(catalog.drop_last()) + match catalog.last() {
            Entry::Single(_) => 0nat,
            Entry::Family { name, members } => members.len(),
        }
    }
}

/// The family names of a catalog, in order.
pub open spec fn family_names(catalog: Seq<Entry>) -> Seq<Seq<char>>
    decreases catalog.len(),
{
    if catalog.len() == 0 {
        Seq::empty()
    } else {
        family_names(catalog.drop_last()) + match catalog.last() {
            Entry::Single(_) => Seq::<Seq<char>>::empty(),
            Entry::Family { name, members } => seq![name],
        }
    }
}

/// A catalog is well formed when no leaf name occurs twice in it and no
/// family is named like a leaf.
pub open spec fn well_formed(catalog: Seq<Entry>) -> bool {
    &&& leaf_names(catalog).no_duplicates()
    &&& forall|i: int|
        0 <= i < family_names(catalog).len() ==> !leaf_names(catalog).contains(
            #[trigger] family_names(catalog)[i],
        )
}

/// The catalog of this library.
pub open spec fn registry() -> Seq<Entry> {
    seq![
        Entry::Single("md5"@),
        Entry::Single("sha1"@),
        Entry::Family { name: "sha2"@, members: seq!["sha224"@, "sha256"@, "sha384"@, "sha512"@] },
    ]
}

impl HashKind {
    /// The name under which the registry offers this algorithm.
    pub open spec fn name_text(self) -> Seq<char> {
        match self {
            HashKind::Md5 => "md5"@,
            HashKind::Sha1 => "sha1"@,
            HashKind::Sha224 => "sha224"@,
            HashKind::Sha256 => "sha256"@,
            HashKind::Sha384 => "sha384"@,
            HashKind::Sha512 => "sha512"@,
        }
    }

    /// The length in bytes of every digest of this algorithm.
    pub open spec fn output_size(self) -> nat {
        match self {
            HashKind::Md5 => 16,
            HashKind::Sha1 => 20,
            HashKind::Sha224 => 28,
            HashKind::Sha256 => 32,
            HashKind::Sha384 => 48,
            HashKind::Sha512 => 64,
        }
    }

    /// The algorithm that `name` selects, if any. Names are matched exactly, case included.
    pub open spec fn named(name: Seq<char>) -> Option<HashKind> {
        if name == "md5"@ {
            Some(HashKind::Md5)
        } else if name == "sha1"@ {
            Some(HashKind::Sha1)
        } else if name == "sha224"@ {
            Some(HashKind::Sha224)
        } else if name == "sha256"@ {
            Some(HashKind::Sha256)
        } else if name == "sha384"@ {
            Some(HashKind::Sha384)
        } else if name == "sha512"@ {
            Some(HashKind::Sha512)
        } else {
            None
        }
    }

    /// The name under which the registry offers this algorithm.
    pub fn name(self) -> (name: &'static str)
        ensures
            name@ == self.name_text(),
    {
        match self {
            HashKind::Md5 => "md5",
            HashKind::Sha1 => "sha1",
            HashKind::Sha224 => "sha224",
            HashKind::Sha256 => "sha256",
            HashKind::Sha384 => "sha384",
            HashKind::Sha512 => "sha512",
        }
    }

    /// The length in bytes of every digest of this algorithm.
    pub fn digest_len(self) -> (len: usize)
        ensures
            len == self.output_size(),
    {
        match self {
            HashKind::Md5 => 16,
            HashKind::Sha1 => 20,
            HashKind::Sha224 => 28,
            HashKind::Sha256 => 32,
            HashKind::Sha384 => 48,
            HashKind::Sha512 => 64,
        }
    }
}

/// The leaves of a catalog grow by the leaves of an entry added at its end.
proof fn lemma_leaf_names_step(catalog: Seq<Entry>, i: int)
    requires
        0 <= i < catalog.len(),
    ensures
        leaf_names(catalog.take(i + 1)) == leaf_names(catalog.take(i)) + catalog[i].leaves(),
{
    assert(catalog.take(i + 1).drop_last() =~= catalog.take(i));
    assert(catalog.take(i + 1).last() == catalog[i]);
}

/// The leaves of two catalogs put together are the leaves of the first
/// followed by the leaves of the second.
pub proof fn lemma_leaf_names_concat(front: Seq<Entry>, back: Seq<Entry>)
    ensures
        leaf_names(front + back) == leaf_names(front) + leaf_names(back),
    decreases back.len(),
{
    if back.len() == 0 {
        assert(front + back =~= front);
        assert(leaf_names(front) + leaf_names(back) =~= leaf_names(front));
    } else {
        assert((front + back).drop_last() =~= front + back.drop_last());
        assert((front + back).last() == back.last());
        lemma_leaf_names_concat(front, back.drop_last());
        assert(leaf_names(front + back) =~= leaf_names(front) + leaf_names(back));
    }
}

/// The number of leaves of a catalog is the number of its standalone entries
/// plus the number of members of all its families.
pub proof fn lemma_leaf_count(catalog: Seq<Entry>)
    ensures
        leaf_names(catalog).len() == standalone_count(catalog) + member_count(catalog),
    decreases catalog.len(),
{
    if catalog.len() > 0 {
        lemma_leaf_count(catalog.drop_last());
    }
}

/// The leaves of the registry, written out.
pub proof fn lemma_registry_leaves()
    ensures
        leaf_names(registry()) == seq![
            "md5"@,
            "sha1"@,
            "sha224"@,
            "sha256"@,
            "sha384"@,
            "sha512"@,
        ],
        family_names(registry()) == seq!["sha2"@],
{
    let full = registry();
    let two = seq![Entry::Single("md5"@), Entry::Single("sha1"@)];
    let one = seq![Entry::Single("md5"@)];
    assert(full.drop_last() =~= two);
    assert(two.drop_last() =~= one);
    assert(one.drop_last() =~= Seq::<Entry>::empty());
    assert(leaf_names(Seq::<Entry>::empty()) =~= Seq::<Seq<char>>::empty());
    assert(family_names(Seq::<Entry>::empty()) =~= Seq::<Seq<char>>::empty());
    assert(leaf_names(one) =~= seq!["md5"@]);
    assert(leaf_names(two) =~= seq!["md5"@, "sha1"@]);
    assert(leaf_names(full) =~= seq![
        "md5"@,
        "sha1"@,
        "sha224"@,
        "sha256"@,
        "sha384"@,
        "sha512"@,
    ]);
    assert(family_names(one) =~= Seq::<Seq<char>>::empty());
    assert(family_names(two) =~= Seq::<Seq<char>>::empty());
    assert(family_names(full) =~= seq!["sha2"@]);
}

/// The names of the registry are told apart by their characters.
proof fn lemma_names_differ()
    ensures
        "md5"@.len() == 3,
        "sha1"@.len() == 4,
        "sha2"@.len() == 4,
        "sha2"@[3] == '2',
        "sha1"@[3] == '1',
        "sha224"@.len() == 6 && "sha224"@[3] == '2' && "sha224"@[4] == '2',
        "sha256"@.len() == 6 && "sha256"@[3] == '2' && "sha256"@[4] == '5',
        "sha384"@.len() == 6 && "sha384"@[3] == '3',
        "sha512"@.len() == 6 && "sha512"@[3] == '5',
{
    reveal_strlit("md5");
    reveal_strlit("sha1");
    reveal_strlit("sha2");
    reveal_strlit("sha224");
    reveal_strlit("sha256");
    reveal_strlit("sha384");
    reveal_strlit("sha512");
}

/// The registry is well formed, and its leaves are exactly the names of the
/// algorithms that can be computed.
pub proof fn lemma_registry_well_formed()
    ensures
        well_formed(registry()),
        forall|name: Seq<char>| #[trigger]
            leaf_names(registry()).contains(name) <==> HashKind::named(name) is Some,
        forall|kind: HashKind| HashKind::named(#[trigger] kind.name_text()) == Some(kind),
        forall|name: Seq<char>|
            #![trigger HashKind::named(name)]
            HashKind::named(name) matches Some(kind) ==> kind.name_text() == name,
{
    lemma_registry_leaves();
    lemma_names_differ();
    let leaves = leaf_names(registry());
    assert(leaves.len() == 6);
    assert(leaves[0] == "md5"@ && leaves[1] == "sha1"@ && leaves[2] == "sha224"@);
    assert(leaves[3] == "sha256"@ && leaves[4] == "sha384"@ && leaves[5] == "sha512"@);
    assert forall|name: Seq<char>| #[trigger]
        leaves.contains(name) <==> HashKind::named(name) is Some by {
        if HashKind::named(name) is Some {
            let k: int = if name == "md5"@ {
                0
            } else if name == "sha1"@ {
                1
            } else if name == "sha224"@ {
                2
            } else if name == "sha256"@ {
                3
            } else if name == "sha384"@ {
                4
            } else {
                5
            };
            assert(leaves[k] == name);
        }
    }
    assert(family_names(registry())[0] == "sha2"@);
    assert(HashKind::named("sha2"@) is None);
}

/// No family of the registry can be looked up by its own name.
pub proof fn lemma_family_names_select_nothing(i: int)
    requires
        0 <= i < family_names(registry()).len(),
    ensures
        HashKind::named(family_names(registry())[i]) is None,
{
    lemma_registry_well_formed();
    assert(!leaf_names(registry()).contains(family_names(registry())[i]));
}

/// Builds the catalog of this library.
pub fn algorithms() -> (catalog: Vec<Algorithm>)
    ensures
        catalog_view(catalog@) == registry(),
{
    let mut members: Vec<String> = Vec::new();
    members.push(String::from_str("sha224"));
    members.push(String::from_str("sha256"));
    members.push(String::from_str("sha384"));
    members.push(String::from_str("sha512"));
    assert(names_of(members@) =~= seq!["sha224"@, "sha256"@, "sha384"@, "sha512"@]);
    let mut catalog: Vec<Algorithm> = Vec::new();
    catalog.push(Algorithm::Single(String::from_str("md5")));
    catalog.push(Algorithm::Single(String::from_str("sha1")));
    catalog.push(Algorithm::Family { name: String::from_str("sha2"), members });
    assert(catalog_view(catalog@) =~= registry());
    catalog
}

/// Whether `name` is one of `names`.
fn among(names: &Vec<String>, name: &str) -> (found: bool)
    ensures
        found == names_of(names@).contains(name@),
{
    let mut i: usize = 0;
    while i < names.len()
        invariant
            i <= names.len(),
            forall|j: int| 0 <= j < i ==> names_of(names@)[j] != name@,
        decreases names.len() - i,
    {
        if str_eq(names[i].as_str(), name) {
            assert(names_of(names@)[i as int] == name@);
            return true;
        }
        i += 1;
    }
    false
}

/// Whether `name` is a leaf of `catalog`: a standalone algorithm or a member
/// of a family. A family's own name is no leaf.
pub fn is_leaf(catalog: &Vec<Algorithm>, name: &str) -> (found: bool)
    ensures
        found == leaf_names(catalog_view(catalog@)).contains(name@),
{
    let ghost entries = catalog_view(catalog@);
    let mut i: usize = 0;
    assert(entries.take(0) =~= Seq::<Entry>::empty());
    while i < catalog.len()
        invariant
            i <= catalog.len(),
            entries == catalog_view(catalog@),
            !leaf_names(entries.take(i as int)).contains(name@),
        decreases catalog.len() - i,
    {
        proof {
            lemma_leaf_names_step(entries, i as int);
        }
        let ghost before = leaf_names(entries.take(i as int));
        let ghost added = entries[i as int].leaves();
        let here = match &catalog[i] {
            Algorithm::Single(single) => {
                let same = str_eq(single.as_str(), name);
                assert(same == added.contains(name@)) by {
                    if same {
                        assert(added[0] == name@);
                    }
                }
                same
            },
            Algorithm::Family { name: _, members } => among(members, name),
        };
        assert(here == added.contains(name@));
        if here {
            proof {
                let k = choose|k: int| 0 <= k < added.len() && added[k] == name@;
                assert((before + added)[before.len() + k] == name@);
                lemma_leaves_of_prefix(entries, i as int + 1);
            }
            return true;
        }
        assert(!(before + added).contains(name@)) by {
            if (before + added).contains(name@) {
                let k = choose|k: int| 0 <= k < (before + added).len() && (before + added)[k] == name@;
                if k < before.len() {
                    assert(before[k] == name@);
                } else {
                    assert(added[k - before.len()] == name@);
                }
            }
        }
        i += 1;
    }
    assert(entries.take(i as int) =~= entries);
    false
}

/// Every leaf of a prefix of a catalog is a leaf of the catalog.
proof fn lemma_leaves_of_prefix(catalog: Seq<Entry>, n: int)
    requires
        0 <= n <= catalog.len(),
    ensures
        forall|name: Seq<char>|
            leaf_names(catalog.take(n)).contains(name) ==> #[trigger] leaf_names(
                catalog,
            ).contains(name),
    decreases catalog.len() - n,
{
    if n == catalog.len() {
        assert(catalog.take(n) =~= catalog);
    } else {
        lemma_leaves_of_prefix(catalog, n + 1);
        lemma_leaf_names_step(catalog, n);
        let shorter = leaf_names(catalog.take(n));
        let longer = leaf_names(catalog.take(n + 1));
        assert forall|name: Seq<char>| shorter.contains(name) implies #[trigger] leaf_names(
            catalog,
        ).contains(name) by {
            let k = choose|k: int| 0 <= k < shorter.len() && shorter[k] == name;
            assert(longer[k] == name);
        }
    }
}

/// The number of leaves of `catalog`: one for each standalone algorithm and
/// one for each member of a family, none for a family itself.
pub fn leaf_count(catalog: &Vec<Algorithm>) -> (count: usize)
    requires
        leaf_names(catalog_view(catalog@)).len() <= usize::MAX,
    ensures
        count == leaf_names(catalog_view(catalog@)).len(),
        count == standalone_count(catalog_view(catalog@)) + member_count(catalog_view(catalog@)),
{
    let ghost entries = catalog_view(catalog@);
    let mut count: usize = 0;
    let mut i: usize = 0;
    assert(entries.take(0) =~= Seq::<Entry>::empty());
    while i < catalog.len()
        invariant
            i <= catalog.len(),
            entries == catalog_view(catalog@),
            count == leaf_names(entries.take(i as int)).len(),
            leaf_names(entries).len() <= usize::MAX,
        decreases catalog.len() - i,
    {
        proof {
            lemma_leaf_names_step(entries, i as int);
            lemma_prefix_leaf_count(entries, i as int + 1);
        }
        match &catalog[i] {
            Algorithm::Single(_) => {
                count += 1;
            },
            Algorithm::Family { name: _, members } => {
                count += members.len();
            },
        }
        i += 1;
    }
    proof {
        assert(entries.take(i as int) =~= entries);
        lemma_leaf_count(entries);
    }
    count
}

/// A prefix of a catalog has no more leaves than the catalog.
proof fn lemma_prefix_leaf_count(catalog: Seq<Entry>, n: int)
    requires
        0 <= n <= catalog.len(),
    ensures
        leaf_names(catalog.take(n)).len() <= leaf_names(catalog).len(),
    decreases catalog.len() - n,
{
    if n == catalog.len() {
        assert(catalog.take(n) =~= catalog);
    } else {
        lemma_prefix_leaf_count(catalog, n + 1);
        lemma_leaf_names_step(catalog, n);
    }
}

/// The algorithm that a leaf name of the registry stands for.
fn factory_for(name: &str) -> (kind: HashKind)
    requires
        HashKind::named(name@) is Some,
    ensures
        HashKind::named(name@) == Some(kind),
{
    if str_eq(name, "md5") {
        HashKind::Md5
    } else if str_eq(name, "sha1") {
        HashKind::Sha1
    } else if str_eq(name, "sha224") {
        HashKind::Sha224
    } else if str_eq(name, "sha256") {
        HashKind::Sha256
    } else if str_eq(name, "sha384") {
        HashKind::Sha384
    } else {
        HashKind::Sha512
    }
}

/// Resolves `name` to the algorithm it selects in the registry.
///
/// A name selects an algorithm exactly when it is a leaf of the registry:
/// a standalone algorithm or a member of a family, matched character by
/// character. Every other name, a family's own name included, is handed
/// back as an unknown algorithm.
pub fn lookup(name: &str) -> (found: Result<HashKind, DigestError>)
    ensures
        match HashKind::named(name@) {
            Some(kind) => found == Ok::<HashKind, DigestError>(kind),
            None => found matches Err(DigestError::UnknownAlgorithm(unknown)) && unknown@
                == name@,
        },
        HashKind::named(name@) is Some <==> leaf_names(registry()).contains(name@),
{
    proof {
        lemma_registry_well_formed();
    }
    let catalog = algorithms();
    if is_leaf(&catalog, name) {
        Ok(factory_for(name))
    } else {
        Err(DigestError::UnknownAlgorithm(String::from_str(name)))
    }
}

} // verus!
