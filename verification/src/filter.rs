//! The target whitelist: how it is configured, and how events are filtered.

use vstd::prelude::*;
use crate::encode::{clear_event, encode, encode_clear, wire_event};
use crate::record::VisualRecord;
use crate::text::{
    all_printable, chars_of, find_char, first_index_of, is_prefix, match_prefix, text_of, trim,
    trim_end_index, trim_start_index,
};

verus! {

/// The texts held by a list of strings, in order.
pub open spec fn texts(v: Seq<String>) -> Seq<Seq<char>> {
    Seq::new(v.len(), |i: int| v[i]@)
}

/// Whether a whitelist lets a target pass: it is empty, or one of its
/// entries is a prefix of the target.
pub open spec fn allows(whitelist: Seq<Seq<char>>, target: Seq<char>) -> bool {
    whitelist.len() == 0 || exists|i: int|
        0 <= i < whitelist.len() && is_prefix(#[trigger] whitelist[i], target)
}

/// The order of texts: character by character, by code point, a text before
/// the texts it begins. This is the order of their UTF-8 bytes.
pub open spec fn text_lt(a: Seq<char>, b: Seq<char>) -> bool
    decreases a.len(),
{
    if b.len() == 0 {
        false
    } else if a.len() == 0 {
        true
    } else if a.first() != b.first() {
        a.first() < b.first()
    } else {
        text_lt(a.drop_first(), b.drop_first())
    }
}

/// Whether each text of `s` is before all that follow it.
pub open spec fn ascending(s: Seq<Seq<char>>) -> bool {
    forall|i: int, j: int| 0 <= i < j < s.len() ==> text_lt(#[trigger] s[i], #[trigger] s[j])
}

/// The entries of a comma-separated list: each trimmed, the empty ones left
/// out, in the order of the list.
pub open spec fn listed_targets(list: Seq<char>) -> Seq<Seq<char>>
    decreases list.len(),
{
    let i = first_index_of(list, ',') as int;
    let entry = trim(list.take(i));
    let first = if entry.len() > 0 {
        seq![entry]
    } else {
        Seq::empty()
    };
    if i >= list.len() {
        first
    } else {
        first + listed_targets(list.skip(i + 1))
    }
}

/// The order of texts is transitive.
pub proof fn lemma_text_lt_transitive(a: Seq<char>, b: Seq<char>, c: Seq<char>)
    requires
        text_lt(a, b),
        text_lt(b, c),
    ensures
        text_lt(a, c),
    decreases a.len(),
{
    if a.len() > 0 && a.first() == b.first() && b.first() == c.first() {
        lemma_text_lt_transitive(a.drop_first(), b.drop_first(), c.drop_first());
    }
}

/// Of two different texts one is before the other, and no text is before
/// itself.
pub proof fn lemma_text_lt_total(a: Seq<char>, b: Seq<char>)
    ensures
        a == b ==> !text_lt(a, b),
        a != b ==> (text_lt(a, b) <==> !text_lt(b, a)),
    decreases a.len(),
{
    if a.len() > 0 && b.len() > 0 && a.first() == b.first() {
        lemma_text_lt_total(a.drop_first(), b.drop_first());
        if a.drop_first() == b.drop_first() {
            assert(a =~= seq![a.first()] + a.drop_first());
            assert(b =~= seq![b.first()] + b.drop_first());
        }
    } else if a.len() == 0 && b.len() == 0 {
        assert(a =~= b);
    }
}

/// An ascending list holds no text twice.
pub proof fn lemma_ascending_has_no_duplicates(s: Seq<Seq<char>>)
    requires
        ascending(s),
    ensures
        s.no_duplicates(),
{
    assert forall|i: int, j: int| 0 <= i < s.len() && 0 <= j < s.len() && i != j implies s[i]
        != s[j] by {
        lemma_text_lt_total(s[i], s[j]);
        if i < j {
            assert(text_lt(s[i], s[j]));
        } else {
            assert(text_lt(s[j], s[i]));
        }
    }
}

/// How two texts stand to each other in the order of texts.
#[derive(Clone, Copy, Debug, PartialEq, Eq, Structural)]
pub enum Precedence {
    Before,
    Same,
    After,
}

/// Tells how `a` stands to `b` in the order of texts.
pub fn precedence(a: &str, b: &str) -> (p: Precedence)
    ensures
        p == Precedence::Before <==> text_lt(a@, b@),
        p == Precedence::Same <==> a@ == b@,
        p == Precedence::After <==> text_lt(b@, a@),
{
    let x = chars_of(a);
    let y = chars_of(b);
    let mut i: usize = 0;
    proof {
        assert(a@.skip(0) == a@);
        assert(b@.skip(0) == b@);
        lemma_text_lt_total(a@, b@);
    }
    while i < x.len() && i < y.len()
        invariant
            x@ == a@,
            y@ == b@,
            i <= x.len(),
            i <= y.len(),
            a@.take(i as int) == b@.take(i as int),
            text_lt(a@, b@) == text_lt(a@.skip(i as int), b@.skip(i as int)),
            text_lt(b@, a@) == text_lt(b@.skip(i as int), a@.skip(i as int)),
        decreases x.len() - i,
    {
        let ghost ra = a@.skip(i as int);
        let ghost rb = b@.skip(i as int);
        proof {
            assert(ra.first() == a@[i as int]);
            assert(rb.first() == b@[i as int]);
            assert(ra.drop_first() == a@.skip(i + 1));
            assert(rb.drop_first() == b@.skip(i + 1));
        }
        if x[i] != y[i] {
            proof {
                if a@ == b@ {
                    assert(a@[i as int] == b@[i as int]);
                }
            }
            if x[i] < y[i] {
                return Precedence::Before;
            } else {
                return Precedence::After;
            }
        }
        proof {
            assert(a@.take(i + 1) == a@.take(i as int).push(a@[i as int]));
            assert(b@.take(i + 1) == b@.take(i as int).push(b@[i as int]));
        }
        i += 1;
    }
    proof {
        if x.len() == y.len() {
            assert(a@.take(i as int) == a@);
            assert(b@.take(i as int) == b@);
        }
    }
    if x.len() == y.len() {
        Precedence::Same
    } else if x.len() < y.len() {
        Precedence::Before
    } else {
        Precedence::After
    }
}

/// Puts `entry` at its place in an ascending list, unless the list holds it.
fn insert_ascending(list: &mut Vec<String>, entry: String)
    requires
        ascending(texts(old(list)@)),
    ensures
        ascending(texts(final(list)@)),
        forall|s: Seq<char>|
            texts(final(list)@).contains(s) <==> texts(old(list)@).contains(s) || s == entry@,
{
    let ghost before = texts(list@);
    let mut i: usize = 0;
    let mut placed = false;
    while !placed && i < list.len()
        invariant
            i <= list.len(),
            *list == *old(list),
            before == texts(list@),
            ascending(before),
            forall|j: int| 0 <= j < i ==> text_lt(#[trigger] before[j], entry@),
            placed ==> i < list.len() && text_lt(entry@, before[i as int]),
        decreases list.len() - i + (if placed { 0int } else { 1int }),
    {
        match precedence(list[i].as_str(), entry.as_str()) {
            Precedence::Before => {
                assert(before[i as int] == list@[i as int]@);
                i += 1;
            },
            Precedence::Same => {
                proof {
                    assert(before[i as int] == entry@);
                    assert forall|s: Seq<char>|
                        before.contains(s) <==> before.contains(s) || s == entry@ by {}
                }
                return ;
            },
            Precedence::After => {
                assert(text_lt(entry@, before[i as int]));
                placed = true;
            },
        }
    }
    let ghost text = entry@;
    assert(i < before.len() ==> text_lt(text, before[i as int]));
    list.insert(i, entry);
    proof {
        let after = texts(list@);
        assert(after =~= before.take(i as int).push(text) + before.skip(i as int));
        assert forall|a: int, b: int| 0 <= a < b < after.len() implies text_lt(
            #[trigger] after[a],
            #[trigger] after[b],
        ) by {
            if b < i {
                assert(after[a] == before[a] && after[b] == before[b]);
            } else if b == i {
                assert(after[a] == before[a]);
            } else if a == i {
                assert(after[b] == before[b - 1]);
                if b - 1 > i {
                    lemma_text_lt_transitive(text, before[i as int], before[b - 1]);
                }
            } else if a < i {
                assert(after[a] == before[a] && after[b] == before[b - 1]);
            } else {
                assert(after[a] == before[a - 1] && after[b] == before[b - 1]);
            }
        }
        assert forall|s: Seq<char>| after.contains(s) <==> before.contains(s) || s == text by {
            if after.contains(s) {
                let k = choose|k: int| 0 <= k < after.len() && after[k] == s;
                if k < i {
                    assert(before[k] == s);
                } else if k > i {
                    assert(before[k - 1] == s);
                }
            }
            if before.contains(s) {
                let k = choose|k: int| 0 <= k < before.len() && before[k] == s;
                if k < i {
                    assert(after[k] == s);
                } else {
                    assert(after[k + 1] == s);
                }
            }
            if s == text {
                assert(after[i as int] == s);
            }
        }
    }
}

/// Two whitelists with the same entries let the same targets pass.
pub proof fn lemma_allows_same_entries(a: Seq<Seq<char>>, b: Seq<Seq<char>>, target: Seq<char>)
    requires
        forall|s: Seq<char>| a.contains(s) <==> b.contains(s),
    ensures
        allows(a, target) == allows(b, target),
{
    if a.len() > 0 {
        assert(a.contains(a[0]));
    }
    if b.len() > 0 {
        assert(b.contains(b[0]));
    }
    if a.len() > 0 && allows(a, target) {
        let i = choose|i: int| 0 <= i < a.len() && is_prefix(#[trigger] a[i], target);
        assert(a.contains(a[i]));
        let k = choose|k: int| 0 <= k < b.len() && b[k] == a[i];
        assert(is_prefix(b[k], target));
    }
    if b.len() > 0 && allows(b, target) {
        let i = choose|i: int| 0 <= i < b.len() && is_prefix(#[trigger] b[i], target);
        assert(b.contains(b[i]));
        let k = choose|k: int| 0 <= k < a.len() && a[k] == b[i];
        assert(is_prefix(a[k], target));
    }
}

/// Configuration collected before a logger is created.
pub struct Builder {
    port: u16,
    targets: Vec<String>,
}

impl Builder {
    /// The configured port; `0` lets the operating system choose.
    pub closed spec fn spec_port(&self) -> u16 {
        self.port
    }

    /// The target prefixes added so far, in the order they were added.
    pub closed spec fn spec_targets(&self) -> Seq<Seq<char>> {
        texts(self.targets@)
    }

    /// A builder with port `0` and no target prefixes.
    pub fn new() -> (b: Self)
        ensures
            b.spec_port() == 0,
            b.spec_targets() == Seq::<Seq<char>>::empty(),
    {
        Builder { port: 0, targets: Vec::new() }
    }

    /// Sets the port the server will listen on.
    pub fn port(&mut self, port: u16) -> (ret: &mut Self)
        ensures
            ret.spec_port() == port,
            ret.spec_targets() == old(self).spec_targets(),
            *final(self) == *final(ret),
    {
        self.port = port;
        self
    }

    /// Appends a prefix to the whitelist.
    pub fn add_target(&mut self, target: &str) -> (ret: &mut Self)
        ensures
            ret.spec_port() == old(self).spec_port(),
            ret.spec_targets() == old(self).spec_targets().push(target@),
            *final(self) == *final(ret),
    {
        self.targets.push(target.to_owned());
        self
    }

    /// Appends the entries of a comma-separated list, each trimmed, the empty
    /// ones left out.
    pub fn targets_from_list(&mut self, list: &str) -> (ret: &mut Self)
        ensures
            ret.spec_port() == old(self).spec_port(),
            ret.spec_targets() == old(self).spec_targets() + listed_targets(list@),
            *final(self) == *final(ret),
    {
        let chars = chars_of(list);
        let n = chars.len();
        let mut start: usize = 0;
        let mut done = false;
        assert(chars@.subrange(0, n as int) == list@);
        while !done
            invariant
                chars@ == list@,
                n == chars.len(),
                start <= n,
                self.port == old(self).port,
                !done ==> texts(self.targets@) + listed_targets(
                    chars@.subrange(start as int, n as int),
                ) == texts(old(self).targets@) + listed_targets(list@),
                done ==> texts(self.targets@) == texts(old(self).targets@) + listed_targets(list@),
            decreases n - start + (if done { 0int } else { 1int }),
        {
            let ghost rest = chars@.subrange(start as int, n as int);
            let ghost had = texts(self.targets@);
            let comma = find_char(&chars, start, n, ',');
            let from = trim_start_index(&chars, start, comma);
            let to = trim_end_index(&chars, from, comma);
            proof {
                assert(rest.take(comma - start) == chars@.subrange(start as int, comma as int));
                assert(chars@.subrange(start as int, comma as int).skip(from - start)
                    == chars@.subrange(from as int, comma as int));
                assert(chars@.subrange(from as int, comma as int).take(to - from)
                    == chars@.subrange(from as int, to as int));
                assert(trim(rest.take(comma - start)) == chars@.subrange(from as int, to as int));
            }
            if to > from {
                let entry = text_of(&chars, from, to);
                self.targets.push(entry);
                assert(texts(self.targets@) =~= had + seq![entry@]);
            } else {
                assert(texts(self.targets@) =~= had + Seq::<Seq<char>>::empty());
            }
            if comma >= n {
                done = true;
            } else {
                assert(rest.skip(comma - start + 1) == chars@.subrange(comma + 1, n as int));
                start = comma + 1;
            }
        }
        self
    }

    /// The configured port; `0` lets the operating system choose.
    pub fn port_number(&self) -> (port: u16)
        ensures
            port == self.spec_port(),
    {
        self.port
    }

    /// Creates the logger: its whitelist holds the prefixes added here, each
    /// once and in ascending order, so it lets pass what they let pass.
    /// `source_root` is the directory that the files of records are named
    /// from.
    pub fn logger(&self, source_root: &str) -> (logger: WebVLogger)
        ensures
            logger.source_root() == source_root@,
            ascending(logger.whitelist()),
            logger.whitelist().no_duplicates(),
            forall|s: Seq<char>|
                logger.whitelist().contains(s) <==> self.spec_targets().contains(s),
            forall|t: Seq<char>|
                allows(logger.whitelist(), t) == #[trigger] allows(self.spec_targets(), t),
    {
        let mut targets: Vec<String> = Vec::new();
        let ghost given = texts(self.targets@);
        let mut i: usize = 0;
        while i < self.targets.len()
            invariant
                i <= self.targets.len(),
                given == texts(self.targets@),
                ascending(texts(targets@)),
                forall|s: Seq<char>|
                    texts(targets@).contains(s) <==> given.take(i as int).contains(s),
            decreases self.targets.len() - i,
        {
            let ghost had = texts(targets@);
            let entry = self.targets[i].clone();
            assert(entry@ == given[i as int]);
            insert_ascending(&mut targets, entry);
            proof {
                assert(given.take(i + 1) == given.take(i as int).push(given[i as int]));
                assert forall|s: Seq<char>|
                    texts(targets@).contains(s) <==> given.take(i + 1).contains(s) by {
                    let longer = given.take(i + 1);
                    let shorter = given.take(i as int);
                    if longer.contains(s) {
                        let k = choose|k: int| 0 <= k < longer.len() && longer[k] == s;
                        if k < i {
                            assert(shorter[k] == s);
                        }
                    }
                    if shorter.contains(s) {
                        let k = choose|k: int| 0 <= k < shorter.len() && shorter[k] == s;
                        assert(longer[k] == s);
                    }
                    if s == given[i as int] {
                        assert(longer[i as int] == s);
                    }
                }
            }
            i += 1;
        }
        proof {
            assert(given.take(i as int) == given);
            assert forall|t: Seq<char>|
                allows(texts(targets@), t) == #[trigger] allows(given, t) by {
                lemma_allows_same_entries(texts(targets@), given, t);
            }
            lemma_ascending_has_no_duplicates(texts(targets@));
        }
        WebVLogger { targets, source_root: source_root.to_owned() }
    }
}

/// The logger: it filters events by target and encodes those that pass.
pub struct WebVLogger {
    targets: Vec<String>,
    source_root: String,
}

impl WebVLogger {
    /// The whitelist is ascending, so no prefix occurs twice.
    #[verifier::type_invariant]
    closed spec fn inv(&self) -> bool {
        ascending(texts(self.targets@))
    }

    /// The prefixes of the whitelist; when there are none, every target
    /// passes.
    pub closed spec fn whitelist(&self) -> Seq<Seq<char>> {
        texts(self.targets@)
    }

    /// The directory that the files of records are named from.
    pub closed spec fn source_root(&self) -> Seq<char> {
        self.source_root@
    }

    /// The prefixes of the whitelist, in ascending order.
    pub fn targets(&self) -> (list: Vec<String>)
        ensures
            texts(list@) == self.whitelist(),
            ascending(self.whitelist()),
    {
        proof {
            use_type_invariant(self);
        }
        let mut list: Vec<String> = Vec::new();
        let mut i: usize = 0;
        while i < self.targets.len()
            invariant
                i <= self.targets.len(),
                texts(list@) == self.whitelist().take(i as int),
            decreases self.targets.len() - i,
        {
            list.push(self.targets[i].clone());
            assert(texts(list@) =~= self.whitelist().take(i as int).push(self.whitelist()[i as int]));
            assert(self.whitelist().take(i + 1) =~= self.whitelist().take(i as int).push(
                self.whitelist()[i as int],
            ));
            i += 1;
        }
        assert(self.whitelist().take(i as int) =~= self.whitelist());
        list
    }

    /// Whether events with this target pass the whitelist.
    pub fn enabled(&self, target: &str) -> (b: bool)
        ensures
            b == allows(self.whitelist(), target@),
    {
        if self.targets.len() == 0 {
            return true;
        }
        let chars = chars_of(target);
        let n = chars.len();
        assert(chars@.subrange(0, n as int) == target@);
        let mut i: usize = 0;
        while i < self.targets.len()
            invariant
                i <= self.targets.len(),
                n == chars.len(),
                chars@.subrange(0, n as int) == target@,
                forall|j: int| 0 <= j < i ==> !is_prefix(#[trigger] self.whitelist()[j], target@),
            decreases self.targets.len() - i,
        {
            if match_prefix(&chars, 0, n, self.targets[i].as_str()).is_some() {
                assert(is_prefix(self.whitelist()[i as int], target@));
                return true;
            }
            assert(self.whitelist()[i as int] == self.targets@[i as int]@);
            i += 1;
        }
        false
    }

    /// The wire event of a record whose target passes the whitelist; nothing
    /// for one that is filtered out.
    pub fn vlog(&self, record: &VisualRecord) -> (event: Option<String>)
        ensures
            event is Some <==> allows(self.whitelist(), record@.target),
            event matches Some(e) ==> e@ == wire_event(self.source_root(), record@)
                && all_printable(e@),
    {
        if !self.enabled(record.target.as_str()) {
            return None;
        }
        Some(encode(self.source_root.as_str(), record))
    }

    /// The wire event that clears a surface.
    pub fn clear(&self, surface: &str) -> (event: String)
        ensures
            event@ == clear_event(surface@),
            all_printable(event@),
    {
        encode_clear(surface)
    }
}

} // verus!
