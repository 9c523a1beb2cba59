//! The command surface: the options of one invocation, what they ask for,
//! and the listing of the registry.
//!
//! Nothing here reads or writes a file. [`Opts::process`] gives the text to
//! write wherever it can be computed from the options alone; where the input
//! is a file, it gives the hasher that the file's buffers are to be fed to.

use crate::algorithms::{
    algorithms, catalog_view, leaf_count, leaf_names, lemma_leaf_count, lemma_leaf_names_concat,
    lemma_registry_leaves, member_count, names_of, registry, standalone_count, Algorithm, Entry,
    HashKind,
};
use crate::chunked_stream::ChunkedStream;
use crate::error::DigestError;
use crate::hasher::{digest_of, Hasher};
use crate::post_process::Encoding;
use crate::router::{begin, digest_from, digest_of_chunks, lemma_flatten_single};
use crate::text::{decimal, decimal_text};
use std::path::PathBuf;
use vstd::prelude::*;
use vstd::string::*;
use vstd::utf8::*;

verus! {

/// `std::path::PathBuf`, which the options carry and the library never looks into.
#[verifier::external_type_specification]
#[verifier::external_body]
pub struct ExPathBuf(PathBuf);

/// The options of one invocation.
#[derive(Debug)]
pub struct Opts {
    /// The input names a file to hash rather than being the text to hash.
    pub file: bool,
    /// List the available algorithms instead of hashing.
    pub list: bool,
    /// The name of the chosen algorithm.
    pub algorithm: Option<String>,
    /// The text to hash, or the path of the file to hash.
    pub input: Option<String>,
    /// How the digest is rendered.
    pub encoding: Encoding,
    /// Where the result goes; the standard output if absent.
    pub output: Option<PathBuf>,
}

/// What an invocation comes to.
pub enum Outcome {
    /// The text to write to the destination, without its final newline.
    Text(String),
    /// The input is a file: its buffers are to be fed to this hasher, and
    /// the digest rendered in the chosen encoding.
    AwaitsFile(Hasher),
}

/// The lines that an entry contributes to the listing: one for a standalone
/// algorithm; for a family its heading and then one line for each member.
pub open spec fn entry_lines(entry: Entry) -> Seq<Seq<char>> {
    match entry {
        Entry::Single(name) => seq!["· "@ + name],
        Entry::Family { name, members } => seq!["· "@ + name + " family"@] + member_lines(
            members,
        ),
    }
}

/// One line for each member of a family.
pub open spec fn member_lines(members: Seq<Seq<char>>) -> Seq<Seq<char>> {
    members.map_values(|member: Seq<char>| "˪→ "@ + member)
}

/// The lines of all the entries of a catalog, in declaration order.
pub open spec fn listing_lines(catalog: Seq<Entry>) -> Seq<Seq<char>>
    decreases catalog.len(),
{
    if catalog.len() == 0 {
        Seq::empty()
    } else {
        listing_lines(catalog.drop_last()) + entry_lines(catalog.last())
    }
}

/// The lines with a newline between each two of them, and none at the end.
pub open spec fn join_lines(lines: Seq<Seq<char>>) -> Seq<char>
    decreases lines.len(),
{
    if lines.len() == 0 {
        Seq::empty()
    } else if lines.len() == 1 {
        lines[0]
    } else {
        join_lines(lines.drop_last()) + "\n"@ + lines.last()
    }
}

/// The first line of a listing that counts `count` algorithms.
pub open spec fn count_line(count: nat) -> Seq<char> {
    "Algorithm count: "@ + decimal_text(count)
}

/// The listing of a catalog: a first line with the number of its leaves,
/// then the lines of its entries, with a newline between each two lines and
/// none after the last. For a catalog without entries it is the first line alone.
pub open spec fn listing_text(catalog: Seq<Entry>) -> Seq<char> {
    join_lines(seq![count_line(leaf_names(catalog).len())] + listing_lines(catalog))
}

/// Lines joined after a first line follow it after a newline; with no line
/// to follow, the first line stands alone.
pub proof fn lemma_join_after_first(first: Seq<char>, lines: Seq<Seq<char>>)
    ensures
        join_lines(seq![first] + lines) == if lines.len() == 0 {
            first
        } else {
            first + "\n"@ + join_lines(lines)
        },
    decreases lines.len(),
{
    let all = seq![first] + lines;
    if lines.len() == 0 {
        assert(all =~= seq![first]);
    } else {
        let shorter = lines.drop_last();
        assert(all.drop_last() =~= seq![first] + shorter);
        assert(all.last() == lines.last());
        lemma_join_after_first(first, shorter);
        if shorter.len() == 0 {
            assert(lines =~= seq![lines.last()]);
            assert(join_lines(all) =~= first + "\n"@ + join_lines(lines));
        } else {
            assert(join_lines(all) =~= first + "\n"@ + join_lines(lines));
        }
    }
}

/// A listing is its first line alone where the catalog gives no line, and
/// otherwise its first line, a newline and the joined lines of the entries.
/// The number on the first line is the number of the catalog's standalone
/// entries plus the number of members of all its families.
pub proof fn lemma_listing_counts_leaves(catalog: Seq<Entry>)
    ensures
        listing_text(catalog) == if listing_lines(catalog).len() == 0 {
            count_line(standalone_count(catalog) + member_count(catalog))
        } else {
            count_line(standalone_count(catalog) + member_count(catalog)) + "\n"@ + join_lines(
                listing_lines(catalog),
            )
        },
        catalog.len() == 0 ==> listing_text(catalog) == count_line(0),
{
    lemma_leaf_count(catalog);
    lemma_join_after_first(count_line(leaf_names(catalog).len()), listing_lines(catalog));
}

/// The lines of two catalogs put together are the lines of the first
/// followed by the lines of the second.
pub proof fn lemma_listing_lines_concat(front: Seq<Entry>, back: Seq<Entry>)
    ensures
        listing_lines(front + back) == listing_lines(front) + listing_lines(back),
    decreases back.len(),
{
    if back.len() == 0 {
        assert(front + back =~= front);
        assert(listing_lines(front) + listing_lines(back) =~= listing_lines(front));
    } else {
        assert((front + back).drop_last() =~= front + back.drop_last());
        assert((front + back).last() == back.last());
        lemma_listing_lines_concat(front, back.drop_last());
        assert(listing_lines(front + back) =~= listing_lines(front) + listing_lines(back));
    }
}

/// A family put into a catalog at any place adds the number of its members
/// to the number of leaves, and nothing for itself; to the lines of the
/// listing it adds its heading and one line for each member.
pub proof fn lemma_family_inserted(
    catalog: Seq<Entry>,
    at: int,
    name: Seq<char>,
    members: Seq<Seq<char>>,
)
    requires
        0 <= at <= catalog.len(),
    ensures
        leaf_names(catalog.insert(at, Entry::Family { name, members })).len() == leaf_names(
            catalog,
        ).len() + members.len(),
        listing_lines(catalog.insert(at, Entry::Family { name, members })).len()
            == listing_lines(catalog).len() + 1 + members.len(),
{
    let family = Entry::Family { name, members };
    let front = catalog.take(at);
    let back = catalog.skip(at);
    assert(catalog =~= front + back);
    assert(catalog.insert(at, family) =~= (front + seq![family]) + back);
    lemma_leaf_names_concat(front, back);
    lemma_leaf_names_concat(front, seq![family]);
    lemma_leaf_names_concat(front + seq![family], back);
    lemma_listing_lines_concat(front, back);
    lemma_listing_lines_concat(front, seq![family]);
    lemma_listing_lines_concat(front + seq![family], back);
    assert(seq![family].drop_last() =~= Seq::<Entry>::empty());
    assert(leaf_names(Seq::<Entry>::empty()) =~= Seq::<Seq<char>>::empty());
    assert(listing_lines(Seq::<Entry>::empty()) =~= Seq::<Seq<char>>::empty());
    assert(leaf_names(seq![family]) =~= members);
    assert(listing_lines(seq![family]) =~= entry_lines(family));
}

/// The text that hashing `input` as a string comes to.
pub open spec fn string_digest_text(kind: HashKind, encoding: Encoding, input: Seq<char>) -> Seq<
    char,
> {
    encoding.encoded(digest_of_chunks(kind, seq![encode_utf8(input)]))
}

/// The empty string is hashed as the empty message.
pub proof fn lemma_empty_input(kind: HashKind, encoding: Encoding)
    ensures
        string_digest_text(kind, encoding, Seq::<char>::empty()) == encoding.encoded(
            digest_of(kind, Seq::<u8>::empty()),
        ),
{
    assert(encode_utf8(Seq::<char>::empty()) =~= Seq::<u8>::empty());
    lemma_flatten_single(Seq::<u8>::empty());
}

/// A string and a sequence of buffers that holds the string's bytes come to
/// the same text, under every algorithm and every encoding.
pub proof fn lemma_source_equivalence(
    kind: HashKind,
    encoding: Encoding,
    input: Seq<char>,
    buffers: Seq<Seq<u8>>,
)
    requires
        buffers.flatten() == encode_utf8(input),
    ensures
        string_digest_text(kind, encoding, input) == encoding.encoded(
            digest_of_chunks(kind, buffers),
        ),
{
    lemma_flatten_single(encode_utf8(input));
}

/// Joining one more line puts a newline before it, unless it is the first.
proof fn lemma_join_push(lines: Seq<Seq<char>>, line: Seq<char>)
    ensures
        join_lines(lines.push(line)) == if lines.len() == 0 {
            line
        } else {
            join_lines(lines) + "\n"@ + line
        },
{
    assert(lines.push(line).drop_last() =~= lines);
}

/// Appends a newline and then a line made of `prefix`, `name` and `suffix`.
fn append_line(text: &mut String, prefix: &str, name: &str, suffix: &str)
    ensures
        final(text)@ == old(text)@ + "\n"@ + (prefix@ + name@ + suffix@),
{
    text.append("\n");
    text.append(prefix);
    text.append(name);
    text.append(suffix);
    assert(text@ =~= old(text)@ + "\n"@ + (prefix@ + name@ + suffix@));
}

/// Renders the listing of `catalog`.
pub fn render_listing(catalog: &Vec<Algorithm>) -> (text: String)
    requires
        leaf_names(catalog_view(catalog@)).len() <= usize::MAX,
    ensures
        text@ == listing_text(catalog_view(catalog@)),
{
    proof {
        reveal_strlit("");
    }
    let count = leaf_count(catalog);
    let ghost entries = catalog_view(catalog@);
    let ghost head = seq![count_line(count as nat)];
    let mut text = String::from_str("Algorithm count: ");
    text.append(decimal(count).as_str());
    let ghost mut lines: Seq<Seq<char>> = head;
    let mut i: usize = 0;
    proof {
        assert(entries.take(0) =~= Seq::<Entry>::empty());
        assert(head + listing_lines(entries.take(0)) =~= head);
    }
    while i < catalog.len()
        invariant
            i <= catalog.len(),
            entries == catalog_view(catalog@),
            lines == head + listing_lines(entries.take(i as int)),
            text@ == join_lines(lines),
            head.len() == 1,
            ""@ == Seq::<char>::empty(),
        decreases catalog.len() - i,
    {
        let ghost done = lines;
        match &catalog[i] {
            Algorithm::Single(name) => {
                append_line(&mut text, "· ", name.as_str(), "");
                proof {
                    let line = "· "@ + name@;
                    assert("· "@ + name@ + ""@ =~= line);
                    lemma_join_push(lines, line);
                    lines = lines.push(line);
                    assert(lines =~= done + entry_lines(entries[i as int]));
                }
            },
            Algorithm::Family { name, members } => {
                append_line(&mut text, "· ", name.as_str(), " family");
                proof {
                    let line = "· "@ + name@ + " family"@;
                    lemma_join_push(lines, line);
                    lines = lines.push(line);
                }
                let ghost heading = lines;
                let ghost all = member_lines(names_of(members@));
                let mut j: usize = 0;
                while j < members.len()
                    invariant
                        j <= members.len(),
                        all == member_lines(names_of(members@)),
                        lines == heading + all.take(j as int),
                        text@ == join_lines(lines),
                        heading.len() > 0,
                        ""@ == Seq::<char>::empty(),
                    decreases members.len() - j,
                {
                    append_line(&mut text, "˪→ ", members[j].as_str(), "");
                    proof {
                        let line = "˪→ "@ + members@[j as int]@;
                        assert("˪→ "@ + members@[j as int]@ + ""@ =~= line);
                        assert(all[j as int] == line);
                        lemma_join_push(lines, line);
                        assert(all.take(j + 1) =~= all.take(j as int).push(line));
                        lines = lines.push(line);
                        assert(lines =~= heading + all.take(j + 1));
                    }
                    j += 1;
                }
                proof {
                    assert(all.take(j as int) =~= all);
                    assert(lines =~= done + entry_lines(entries[i as int]));
                }
            },
        }
        proof {
            assert(entries.take(i + 1).drop_last() =~= entries.take(i as int));
            assert(entries.take(i + 1).last() == entries[i as int]);
            assert(lines =~= head + listing_lines(entries.take(i + 1)));
        }
        i += 1;
    }
    assert(entries.take(i as int) =~= entries);
    text
}

/// What is written to the destination for a result: the result followed by
/// exactly one newline.
pub fn output_line(result: &str) -> (line: String)
    ensures
        line@ == result@.push('\n'),
{
    proof {
        reveal_strlit("\n");
    }
    let line = String::from_str(result).concat("\n");
    assert(line@ =~= result@.push('\n'));
    line
}

/// The listing of the registry: the number of algorithms that can be chosen
/// on its first line, then every entry in declaration order.
pub fn algo_list() -> (text: String)
    ensures
        text@ == listing_text(registry()),
{
    proof {
        lemma_registry_leaves();
    }
    let catalog = algorithms();
    render_listing(&catalog)
}

impl Opts {
    /// Works out what the options ask for.
    ///
    /// With `list` set, the outcome is the listing of the registry, whatever
    /// else is set. Otherwise an algorithm and an input are needed, and an
    /// invocation without both is invalid. The algorithm is resolved before
    /// the input is touched, so an unknown name fails whatever the input is.
    /// An input that is text is hashed and rendered in the chosen encoding;
    /// for an input that names a file, the outcome is the fresh hasher of
    /// the algorithm, and reading the file is left to the caller.
    pub fn process(&self) -> (outcome: Result<Outcome, DigestError>)
        ensures
            self.list ==> (outcome matches Ok(Outcome::Text(text)) && text@ == listing_text(
                registry(),
            )),
            !self.list && (self.algorithm is None || self.input is None) ==> (outcome matches Err(
                DigestError::InvalidInvocation,
            )),
            !self.list && self.algorithm is Some && self.input is Some ==> (match HashKind::named(
                self.algorithm->0@,
            ) {
                None => outcome matches Err(DigestError::UnknownAlgorithm(unknown)) && unknown@
                    == self.algorithm->0@,
                Some(kind) => if self.file {
                    outcome matches Ok(Outcome::AwaitsFile(hasher)) && hasher.algorithm() == kind
                        && hasher.absorbed() == Seq::<u8>::empty()
                } else {
                    outcome matches Ok(Outcome::Text(text)) && text@ == string_digest_text(
                        kind,
                        self.encoding,
                        self.input->0@,
                    ) && digest_of_chunks(kind, seq![encode_utf8(self.input->0@)]).len()
                        == kind.output_size() && (self.encoding is Hex ==> text@.len() == 2
                        * kind.output_size())
                },
            }),
    {
        if self.list {
            return Ok(Outcome::Text(algo_list()));
        }
        match (&self.algorithm, &self.input) {
            (Some(algorithm), Some(input)) => {
                if self.file {
                    match begin(algorithm.as_str()) {
                        Ok(hasher) => Ok(Outcome::AwaitsFile(hasher)),
                        Err(unknown) => Err(unknown),
                    }
                } else {
                    let data = ChunkedStream::from_string(input.as_str());
                    match digest_from(data, algorithm.as_str()) {
                        Ok(digest) => Ok(Outcome::Text(self.encoding.encode(digest))),
                        Err(unknown) => Err(unknown),
                    }
                }
            },
            _ => Err(DigestError::InvalidInvocation),
        }
    }
}

} // verus!
