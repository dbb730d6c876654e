//! The table of static assets, looked up by URL path.
use vstd::prelude::*;

verus! {

/// One static asset: the URL path it is served under and its bytes.
#[derive(Debug)]
pub struct AssetEntry {
    pub path: String,
    pub content: Vec<u8>,
}

/// An immutable list of assets, built once and then only read.
#[derive(Debug)]
pub struct AssetTable {
    entries: Vec<AssetEntry>,
}

/// What a table holds: its (path, bytes) pairs, in order.
pub type TableView = Seq<(Seq<char>, Seq<u8>)>;

pub open spec fn entry_view(e: AssetEntry) -> (Seq<char>, Seq<u8>) {
    (e.path@, e.content@)
}

/// Some entry of `t` is registered under `p`.
pub open spec fn has_path(t: TableView, p: Seq<char>) -> bool {
    exists|i: int| 0 <= i < t.len() && #[trigger] t[i].0 == p
}

/// `i` is the first entry of `t` registered under `p`.
pub open spec fn is_first_index(t: TableView, p: Seq<char>, i: int) -> bool {
    &&& 0 <= i < t.len()
    &&& t[i].0 == p
    &&& forall|j: int| 0 <= j < i ==> #[trigger] t[j].0 != p
}

/// The first entry of `t` registered under `p` (meaningful when `has_path(t, p)`).
pub open spec fn first_index(t: TableView, p: Seq<char>) -> int {
    choose|i: int| is_first_index(t, p, i)
}

/// The first index is unique.
pub proof fn lemma_first_index_unique(t: TableView, p: Seq<char>, i: int)
    requires
        is_first_index(t, p, i),
    ensures
        has_path(t, p),
        first_index(t, p) == i,
{
    let c = first_index(t, p);
    assert(is_first_index(t, p, c));
    if c < i {
        assert(t[c].0 != p);
    } else if i < c {
        assert(t[i].0 != p);
    }
}

impl View for AssetTable {
    type V = TableView;

    closed spec fn view(&self) -> TableView {
        self.entries@.map_values(|e: AssetEntry| entry_view(e))
    }
}

/// `a` and `b` hold the same characters.
pub(crate) fn same_text(a: &str, b: &str) -> (r: bool)
    ensures
        r == (a@ == b@),
{
    let n = a.unicode_len();
    if n != b.unicode_len() {
        return false;
    }
    let mut i: usize = 0;
    while i < n
        invariant
            n == a@.len(),
            n == b@.len(),
            i <= n,
            forall|k: int| 0 <= k < i ==> a@[k] == b@[k],
        decreases n - i,
    {
        if a.get_char(i) != b.get_char(i) {
            return false;
        }
        i = i + 1;
    }
    assert(a@ =~= b@);
    true
}

impl AssetTable {
    /// A table of `entries`, in the given order.
    pub fn new(entries: Vec<AssetEntry>) -> (t: AssetTable)
        ensures
            t@ == entries@.map_values(|e: AssetEntry| entry_view(e)),
    {
        AssetTable { entries }
    }

    /// Number of entries.
    pub fn len(&self) -> (n: usize)
        ensures
            n == self@.len(),
    {
        self.entries.len()
    }

    /// Index of the first entry registered under exactly `path`, if any.
    pub fn lookup(&self, path: &str) -> (r: Option<usize>)
        ensures
            r is None <==> !has_path(self@, path@),
            r matches Some(i) ==> is_first_index(self@, path@, i as int) && i == first_index(
                self@,
                path@,
            ),
    {
        let n = self.entries.len();
        let mut i: usize = 0;
        while i < n
            invariant
                n == self@.len(),
                i <= n,
                forall|j: int| 0 <= j < i ==> #[trigger] self@[j].0 != path@,
            decreases n - i,
        {
            if same_text(self.entries[i].path.as_str(), path) {
                proof {
                    lemma_first_index_unique(self@, path@, i as int);
                }
                return Some(i);
            }
            i = i + 1;
        }
        None
    }

    /// The bytes of entry `i`.
    pub fn content(&self, i: usize) -> (r: &[u8])
        requires
            i < self@.len(),
        ensures
            r@ == self@[i as int].1,
    {
        self.entries[i].content.as_slice()
    }

    /// The path of entry `i`.
    pub fn path(&self, i: usize) -> (r: &str)
        requires
            i < self@.len(),
        ensures
            r@ == self@[i as int].0,
    {
        self.entries[i].path.as_str()
    }
}

} // verus!
