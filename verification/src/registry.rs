//! The source registry: the identifier-to-address mapping read fresh on
//! each poll cycle. Its text is parsed by serde_json behind one trusted
//! wrapper; everything after the parse — the entry list, its key
//! uniqueness, the error shape — is verified.

use vstd::prelude::*;

verus! {

/// One source: a name and the live address to capture from.
#[derive(Debug)]
pub struct Source {
    /// Identifier, unique within a poll cycle.
    pub id: String,
    /// Connection locator handed to the capture executor.
    pub addr: String,
}

impl View for Source {
    type V = (Seq<char>, Seq<char>);

    open spec fn view(&self) -> (Seq<char>, Seq<char>) {
        (self.id@, self.addr@)
    }
}

impl Clone for Source {
    fn clone(&self) -> (r: Self)
        ensures
            r@ == self@,
    {
        Source { id: self.id.clone(), addr: self.addr.clone() }
    }
}

/// The views of a list of sources, in order.
pub open spec fn source_views(entries: Seq<Source>) -> Seq<(Seq<char>, Seq<char>)> {
    entries.map_values(|s: Source| s@)
}

/// No identifier occurs twice.
pub open spec fn distinct_ids(entries: Seq<(Seq<char>, Seq<char>)>) -> bool {
    forall|i: int, j: int| 0 <= i < j < entries.len() ==> entries[i].0 != entries[j].0
}

/// The entry list carries exactly the graph of the mapping `m`.
pub open spec fn entries_match(
    entries: Seq<(Seq<char>, Seq<char>)>,
    m: Map<Seq<char>, Seq<char>>,
) -> bool {
    &&& forall|i: int| 0 <= i < entries.len() ==> m.contains_pair(entries[i].0, entries[i].1)
    &&& forall|k: Seq<char>|
        m.dom().contains(k) ==> exists|i: int| 0 <= i < entries.len() && entries[i].0 == k
}

/// One poll cycle's source list, in the order the sources are evaluated.
#[derive(Debug)]
pub struct Registry {
    /// The sources of this cycle.
    pub entries: Vec<Source>,
}

impl View for Registry {
    type V = Seq<(Seq<char>, Seq<char>)>;

    open spec fn view(&self) -> Seq<(Seq<char>, Seq<char>)> {
        source_views(self.entries@)
    }
}

impl Registry {
    /// Identifiers are unique within the cycle.
    pub open spec fn wf(&self) -> bool {
        distinct_ids(self@)
    }
}

/// A registry text that cannot be parsed. Fatal to the process: no cycle
/// proceeds on a partial or unreadable source list.
#[derive(Debug)]
pub struct RegistryError {
    /// The parser's account of what was wrong.
    pub detail: String,
}

/// What the registry text denotes: the identifier-to-address mapping if
/// the text is a well-formed registry, and nothing otherwise.
pub uninterp spec fn json_links(s: Seq<char>) -> Option<Map<Seq<char>, Seq<char>>>;

/// Relies on serde_json::from_str deserializing a map of strings: it
/// returns the mapping the text denotes, with each key once, in an
/// unspecified order, and an error exactly when the text does not parse
/// as such a mapping.
#[verifier::external_body]
fn parse_links(text: &str) -> (r: Result<Vec<(String, String)>, serde_json::Error>)
    ensures
        r is Ok <==> json_links(text@) is Some,
        r is Ok ==> distinct_ids(r->Ok_0@.map_values(|p: (String, String)| (p.0@, p.1@))),
        r is Ok ==> entries_match(
            r->Ok_0@.map_values(|p: (String, String)| (p.0@, p.1@)),
            json_links(text@)->Some_0,
        ),
{
    serde_json::from_str::<std::collections::HashMap<String, String>>(text).map(
        |m| m.into_iter().collect(),
    )
}

/// serde_json's error type, declared opaquely so the parse wrapper can
/// hand it through; the library reads nothing from it but its text.
#[verifier::external_type_specification]
#[verifier::external_body]
pub struct ExSerdeJsonError(serde_json::Error);

/// Relies on serde_json::Error's Display giving a description of the
/// parse failure; nothing is assumed of its text.
#[verifier::external_body]
fn parse_fault_text(e: &serde_json::Error) -> (r: String)
{
    e.to_string()
}

/// Reads one poll cycle's source list from the registry text. Returns
/// the sources, with unique identifiers, exactly when the text denotes a
/// mapping; the parse failure otherwise, which aborts the cycle.
pub fn read_registry(text: &str) -> (r: Result<Registry, RegistryError>)
    ensures
        r is Ok <==> json_links(text@) is Some,
        r is Ok ==> r->Ok_0.wf(),
        r is Ok ==> entries_match(r->Ok_0@, json_links(text@)->Some_0),
{
    match parse_links(text) {
        Err(e) => {
            let detail = parse_fault_text(&e);
            Err(RegistryError { detail })
        },
        Ok(mut pairs) => {
            let ghost orig = pairs@.map_values(|p: (String, String)| (p.0@, p.1@));
            let mut entries: Vec<Source> = Vec::new();
            while pairs.len() > 0
                invariant
                    entries@.len() + pairs@.len() == orig.len(),
                    forall|i: int|
                        0 <= i < entries@.len() ==> source_views(entries@)[i] == orig[i],
                    forall|i: int|
                        0 <= i < pairs@.len() ==> (pairs@[i].0@, pairs@[i].1@) == orig[
                            entries@.len() + i
                        ],
                decreases pairs@.len(),
            {
                let p = pairs.remove(0);
                entries.push(Source { id: p.0, addr: p.1 });
            }
            proof {
                assert(source_views(entries@) =~= orig);
            }
            Ok(Registry { entries })
        },
    }
}

} // verus!
