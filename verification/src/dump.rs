//! Laying the bodies of an archive out on disk.
//!
//! The dump holds one file for each `GET` entry, at the path under which the
//! server later looks for a substitute. What is worked out here is the list
//! of files; writing them is left to the caller.

use vstd::prelude::*;
use crate::error::HarbingerError;
use crate::har::Entry;
use crate::har::EntryRecord;
use crate::har::first_named;
use crate::har::first_value;
use crate::har::Har;
use crate::har::HeaderLine;
use crate::har::names_header;
use crate::har::none_named;
use crate::method::HttpMethod;
use crate::paths::dump_path;
use crate::paths::dump_path_of;
use crate::replay::embedded_body;
use crate::text::text_eq;

verus! {

/// One file of a dump.
pub struct DumpItem {
    /// The place of the entry in the archive.
    pub index: usize,
    /// Where the file goes.
    pub path: String,
    /// What the file holds, unless it is rewritten as a script.
    pub body: Vec<u8>,
    /// Whether the body is a script that is to be written out in readable
    /// form.
    pub script: bool,
}

/// The mathematical model of a [`DumpItem`].
pub struct DumpItemView {
    pub index: int,
    pub path: Seq<char>,
    pub body: Seq<u8>,
    pub script: bool,
}

impl View for DumpItem {
    type V = DumpItemView;

    open spec fn view(&self) -> DumpItemView {
        DumpItemView {
            index: self.index as int,
            path: self.path@,
            body: self.body@,
            script: self.script,
        }
    }
}

/// The models of a list of dump items, in order.
pub open spec fn dump_item_views(items: Seq<DumpItem>) -> Seq<DumpItemView> {
    Seq::new(items.len(), |i: int| items[i]@)
}

/// Whether an entry is dumped: only those recorded with `GET` are.
pub open spec fn dumped(entry: EntryRecord) -> bool {
    entry.method == "GET"@
}

/// Whether the body of an entry is rewritten as a script: where that was
/// asked for and the first content type of the answer is that of a script.
pub open spec fn rewritten(entry: EntryRecord, unminify: bool) -> bool {
    unminify && first_value(entry.res_headers, "content-type"@, "application/javascript"@)
}

/// The file for the entry at `index`.
pub open spec fn dump_item(index: int, entry: EntryRecord, output: Seq<char>, unminify: bool) -> DumpItemView {
    DumpItemView {
        index,
        path: dump_path(output, entry.method, entry.url),
        body: embedded_body(entry),
        script: rewritten(entry, unminify),
    }
}

/// The files for a list of entries, in capture order.
pub open spec fn dump_items(entries: Seq<EntryRecord>, output: Seq<char>, unminify: bool) -> Seq<
    DumpItemView,
>
    decreases entries.len(),
{
    if entries.len() == 0 {
        Seq::empty()
    } else if dumped(entries.last()) {
        dump_items(entries.drop_last(), output, unminify).push(
            dump_item(entries.len() - 1, entries.last(), output, unminify),
        )
    } else {
        dump_items(entries.drop_last(), output, unminify)
    }
}

/// Whether `i` is the place of the first entry whose URL is no URI
/// reference.
pub open spec fn first_unparsed(entries: Seq<EntryRecord>, i: int) -> bool {
    &&& 0 <= i < entries.len()
    &&& entries[i].uri() is None
    &&& forall|j: int| 0 <= j < i ==> (#[trigger] entries[j]).uri() is Some
}

/// Whether the URL of every entry is a URI reference.
pub open spec fn all_parsed(entries: Seq<EntryRecord>) -> bool {
    forall|j: int| 0 <= j < entries.len() ==> (#[trigger] entries[j]).uri() is Some
}

/// The first header of a name has one value only.
pub proof fn lemma_first_value_unique(
    lines: Seq<HeaderLine>,
    name: Seq<char>,
    a: Seq<char>,
    b: Seq<char>,
)
    requires
        first_value(lines, name, a),
        first_value(lines, name, b),
    ensures
        a == b,
{
    let i = choose|i: int| first_named(lines, name, i) && lines[i].value == a;
    let j = choose|j: int| first_named(lines, name, j) && lines[j].value == b;
    assert(i == j) by {
        if i < j {
            assert(!names_header(lines[i], name));
        }
        if j < i {
            assert(!names_header(lines[j], name));
        }
    }
}

/// Where no header has a name, no value is the first of that name.
pub proof fn lemma_none_named(lines: Seq<HeaderLine>, name: Seq<char>, value: Seq<char>)
    requires
        none_named(lines, name),
    ensures
        !first_value(lines, name, value),
{
    if first_value(lines, name, value) {
        let i = choose|i: int| first_named(lines, name, i) && lines[i].value == value;
        assert(!names_header(lines[i], name));
    }
}

/// Whether the first content type of the answer that `entry` holds is that
/// of a script.
fn is_script(entry: &Entry) -> (r: bool)
    ensures
        r == first_value(entry@.res_headers, "content-type"@, "application/javascript"@),
{
    match entry.res_header("content-type") {
        Some(value) => {
            proof {
                if first_value(entry@.res_headers, "content-type"@, "application/javascript"@) {
                    lemma_first_value_unique(
                        entry@.res_headers,
                        "content-type"@,
                        value@,
                        "application/javascript"@,
                    );
                }
            }
            text_eq(value, "application/javascript")
        },
        None => {
            proof {
                lemma_none_named(
                    entry@.res_headers,
                    "content-type"@,
                    "application/javascript"@,
                );
            }
            false
        },
    }
}

/// The list of files that a dump of `har` into `output_path` consists of.
/// Nothing is dumped into a place that exists already, and an entry whose
/// URL is no URI reference stops the dump.
pub fn dump(har: &Har, output_path: &str, output_exists: bool, unminify: bool) -> (r: Result<
    Vec<DumpItem>,
    HarbingerError,
>)
    ensures
        match r {
            Ok(items) => {
                &&& !output_exists
                &&& all_parsed(har@.entries)
                &&& dump_item_views(items@) == dump_items(har@.entries, output_path@, unminify)
            },
            Err(HarbingerError::DumpPathExists) => output_exists,
            Err(HarbingerError::InvalidHarEntryUri { uri }) => !output_exists && exists|i: int|
                first_unparsed(har@.entries, i) && uri@ == har@.entries[i].url,
            Err(_) => false,
        },
{
    if output_exists {
        return Err(HarbingerError::DumpPathExists);
    }
    let ghost all = har@.entries;
    let mut items: Vec<DumpItem> = Vec::new();
    let mut i: usize = 0;
    while i < har.entries.len()
        invariant
            i <= har.entries.len(),
            !output_exists,
            all == har@.entries,
            all.len() == har.entries.len(),
            forall|j: int| 0 <= j < i ==> (#[trigger] all[j]).uri() is Some,
            dump_item_views(items@) == dump_items(all.take(i as int), output_path@, unminify),
        decreases har.entries.len() - i,
    {
        let entry = &har.entries[i];
        assert(all.take(i + 1).drop_last() == all.take(i as int));
        if let Err(err) = entry.uri() {
            assert(first_unparsed(all, i as int));
            return Err(err);
        }
        if text_eq(entry.method.as_str(), "GET") {
            let path = dump_path_of(output_path, HttpMethod::Get, entry.url.as_str());
            let body = match entry.res_body() {
                Some(bytes) => bytes,
                None => Vec::new(),
            };
            let script = unminify && is_script(entry);
            let item = DumpItem { index: i, path, body, script };
            items.push(item);
        }
        i += 1;
    }
    assert(all.take(i as int) == all);
    Ok(items)
}

} // verus!
