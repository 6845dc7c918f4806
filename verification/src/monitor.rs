//! Watching the node's own clipboard without hearing its own echo.
//!
//! The caller polls the system clipboard and hands what it finds to
//! [`Monitor::observe`], which tells whether the content is a change of the
//! user's to be sent to the cluster. Content that the node itself has just
//! written is expected once and then passed over.

use crate::text::same_text;
use vstd::prelude::*;

verus! {

/// What a clipboard holds.
pub enum ClipboardContent {
    Text(String),
    /// Paths of files.
    Files(Vec<String>),
    /// Nothing that can be sent.
    Empty,
}

/// The mathematical value of a [`ClipboardContent`].
pub enum ContentView {
    Text(Seq<char>),
    Files(Seq<Seq<char>>),
    Empty,
}

impl View for ClipboardContent {
    type V = ContentView;

    open spec fn view(&self) -> ContentView {
        match *self {
            ClipboardContent::Text(t) => ContentView::Text(t@),
            ClipboardContent::Files(f) => ContentView::Files(crate::state::texts_view(f)),
            ClipboardContent::Empty => ContentView::Empty,
        }
    }
}

/// Copies a list of texts.
pub fn copy_texts(list: &Vec<String>) -> (r: Vec<String>)
    ensures
        crate::state::texts_view(r) == crate::state::texts_view(*list),
{
    let n: usize = list.len();
    let mut out: Vec<String> = Vec::new();
    let mut i: usize = 0;
    while i < n
        invariant
            i <= n,
            n == list@.len(),
            out@.len() == i,
            forall|j: int| 0 <= j < i ==> (#[trigger] out@[j])@ == list@[j]@,
        decreases n - i,
    {
        out.push(list[i].clone());
        i = i + 1;
    }
    proof {
        assert(crate::state::texts_view(out) =~= crate::state::texts_view(*list));
    }
    out
}

/// Whether two lists of texts are equal.
pub fn same_texts(a: &Vec<String>, b: &Vec<String>) -> (r: bool)
    ensures
        r == (crate::state::texts_view(*a) == crate::state::texts_view(*b)),
{
    let n: usize = a.len();
    if n != b.len() {
        proof {
            assert(crate::state::texts_view(*a).len() != crate::state::texts_view(*b).len());
        }
        return false;
    }
    let mut i: usize = 0;
    while i < n
        invariant
            i <= n,
            n == a@.len(),
            n == b@.len(),
            forall|j: int| 0 <= j < i ==> (#[trigger] a@[j])@ == b@[j]@,
        decreases n - i,
    {
        if !same_text(a[i].as_str(), b[i].as_str()) {
            proof {
                assert(crate::state::texts_view(*a)[i as int] != crate::state::texts_view(*b)[i as int]);
            }
            return false;
        }
        i = i + 1;
    }
    proof {
        assert(crate::state::texts_view(*a) =~= crate::state::texts_view(*b));
    }
    true
}

impl Clone for ClipboardContent {
    fn clone(&self) -> (r: Self)
        ensures
            r@ == self@,
    {
        match self {
            ClipboardContent::Text(t) => ClipboardContent::Text(t.clone()),
            ClipboardContent::Files(f) => ClipboardContent::Files(copy_texts(f)),
            ClipboardContent::Empty => ClipboardContent::Empty,
        }
    }
}

impl ClipboardContent {
    /// Whether two contents are equal.
    pub fn same(&self, other: &ClipboardContent) -> (r: bool)
        ensures
            r == (self@ == other@),
    {
        match (self, other) {
            (ClipboardContent::Text(a), ClipboardContent::Text(b)) => same_text(
                a.as_str(),
                b.as_str(),
            ),
            (ClipboardContent::Files(a), ClipboardContent::Files(b)) => same_texts(a, b),
            (ClipboardContent::Empty, ClipboardContent::Empty) => true,
            _ => false,
        }
    }
}

/// What the watcher of the clipboard remembers between two polls.
pub struct Monitor {
    /// Content that the node has written itself and expects to find.
    pub expected: ClipboardContent,
    /// The content found last.
    pub last: ClipboardContent,
}

/// The mathematical value of a [`Monitor`].
pub struct MonitorView {
    pub expected: ContentView,
    pub last: ContentView,
}

impl View for Monitor {
    type V = MonitorView;

    open spec fn view(&self) -> MonitorView {
        MonitorView { expected: self.expected@, last: self.last@ }
    }
}

/// Whether the content found is the echo of what the node wrote.
pub open spec fn is_echo(m: MonitorView, found: ContentView) -> bool {
    !(m.expected is Empty) && found == m.expected
}

/// Whether the content found is a change to send: it is no echo, it is not
/// what was found last, and it is not empty.
pub open spec fn is_change(m: MonitorView, found: ContentView) -> bool {
    !is_echo(m, found) && found != m.last && !(found is Empty)
}

/// What the watcher remembers after a poll. An echo is taken note of and no
/// longer expected; a change is taken note of; anything else leaves the
/// watcher as it is.
pub open spec fn polled(m: MonitorView, found: ContentView) -> MonitorView {
    if is_echo(m, found) {
        MonitorView { expected: ContentView::Empty, last: found }
    } else if is_change(m, found) {
        MonitorView { last: found, ..m }
    } else {
        m
    }
}

impl Monitor {
    /// A watcher that starts from what the clipboard holds now.
    pub fn new(initial: ClipboardContent) -> (r: Monitor)
        ensures
            r@ == (MonitorView { expected: ContentView::Empty, last: initial@ }),
    {
        Monitor { expected: ClipboardContent::Empty, last: initial }
    }

    /// Tells the watcher that the node is about to write `content` itself.
    pub fn expect(&mut self, content: ClipboardContent)
        ensures
            final(self)@ == (MonitorView { expected: content@, ..old(self)@ }),
    {
        self.expected = content;
    }

    /// Takes in what a poll has found, and tells whether it is a change of
    /// the user's.
    pub fn observe(&mut self, found: &ClipboardContent) -> (r: bool)
        ensures
            r == is_change(old(self)@, found@),
            final(self)@ == polled(old(self)@, found@),
    {
        let expecting = match self.expected {
            ClipboardContent::Empty => false,
            _ => true,
        };
        if expecting && found.same(&self.expected) {
            self.last = found.clone();
            self.expected = ClipboardContent::Empty;
            return false;
        }
        let empty = match found {
            ClipboardContent::Empty => true,
            _ => false,
        };
        if !empty && !found.same(&self.last) {
            self.last = found.clone();
            return true;
        }
        false
    }
}

/// An echo is never sent. What the node has written itself is passed over
/// when it is found, and is then no longer expected.
pub proof fn lemma_echo_passed_over(m: MonitorView, written: ContentView)
    requires
        !(written is Empty),
    ensures
        !is_change(MonitorView { expected: written, ..m }, written),
        polled(MonitorView { expected: written, ..m }, written).expected is Empty,
        !is_change(polled(MonitorView { expected: written, ..m }, written), written),
{
}

} // verus!
