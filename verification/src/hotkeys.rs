use vstd::prelude::*;

verus! {

use crate::text::eq_ignore_case;
use crate::text::matches_keyword;
use crate::text::spec_trimmed;
use crate::text::trim_str;

/// A logical key that may take part in a hotkey combo. Only these keys are
/// recognized in combo strings; a key outside this list can never be a member
/// of a combo, so the pressed-key tracking ignores it.
#[derive(Clone, Copy, PartialEq, Eq, Structural, Debug)]
pub enum LogicalKey {
    ShiftLeft,
    ControlLeft,
    Alt,
    Space,
    Return,
    Escape,
}

/// A set of logical keys: a combo, or the set of keys currently held down.
/// Duplicates never occur; order of insertion is irrelevant to equality,
/// which is set equality.
#[derive(Debug)]
pub struct KeySet {
    keys: Vec<LogicalKey>,
}

impl KeySet {
    /// No key occurs twice in the backing vector.
    pub closed spec fn wf(&self) -> bool {
        forall|i: int, j: int|
            0 <= i < j < self.keys@.len() ==> self.keys@[i] != self.keys@[j]
    }

    /// The mathematical set of member keys.
    pub closed spec fn view(&self) -> Set<LogicalKey> {
        Set::new(|k: LogicalKey| self.keys@.contains(k))
    }

    /// The empty key set.
    pub fn new() -> (r: Self)
        ensures
            r.wf(),
            r@ =~= Set::<LogicalKey>::empty(),
    {
        KeySet { keys: Vec::new() }
    }

    /// Whether `k` is a member.
    pub fn contains(&self, k: LogicalKey) -> (r: bool)
        ensures
            r == self@.contains(k),
    {
        let mut i: usize = 0;
        while i < self.keys.len()
            invariant
                i <= self.keys@.len(),
                forall|j: int| 0 <= j < i ==> self.keys@[j] != k,
            decreases self.keys@.len() - i,
        {
            if self.keys[i] == k {
                return true;
            }
            i = i + 1;
        }
        false
    }

    /// Adds `k`; a key already present stays present once.
    pub fn insert(&mut self, k: LogicalKey)
        requires
            old(self).wf(),
        ensures
            final(self).wf(),
            final(self)@ =~= old(self)@.insert(k),
    {
        if !self.contains(k) {
            self.keys.push(k);
            assert(self.keys@.drop_last() == old(self).keys@);
            assert(self.keys@.last() == k);
            assert forall|x: LogicalKey| #[trigger] self.keys@.contains(x)
                implies (old(self).keys@.contains(x) || x == k) by {
                let i = choose|i: int| 0 <= i < self.keys@.len() && self.keys@[i] == x;
                if i < self.keys@.len() - 1 {
                    assert(old(self).keys@[i] == x);
                }
            }
            assert forall|x: LogicalKey| old(self).keys@.contains(x)
                implies #[trigger] self.keys@.contains(x) by {
                let i = choose|i: int| 0 <= i < old(self).keys@.len() && old(self).keys@[i] == x;
                assert(self.keys@[i] == x);
            }
            assert(self.keys@.contains(k));
        }
    }

    /// Removes `k` if present.
    pub fn remove(&mut self, k: LogicalKey)
        requires
            old(self).wf(),
        ensures
            final(self).wf(),
            final(self)@ =~= old(self)@.remove(k),
    {
        let n = self.keys.len();
        let mut i: usize = 0;
        while i < n
            invariant
                n == self.keys@.len(),
                i <= n,
                self == old(self),
                old(self).wf(),
                forall|j: int| 0 <= j < i ==> self.keys@[j] != k,
            decreases n - i,
        {
            if self.keys[i] == k {
                let ghost pre = self.keys@;
                assert(pre[i as int] == k);
                assert forall|a: int, b: int| 0 <= a < b < pre.len() implies pre[a] != pre[b] by {
                    assert(old(self).keys@[a] != old(self).keys@[b]);
                }
                self.keys.remove(i);
                proof {
                    assert(self.keys@ == pre.remove(i as int));
                    assert(forall|j: int|
                        0 <= j < i ==> #[trigger] self.keys@[j] == pre[j]);
                    assert(forall|j: int|
                        i <= j < self.keys@.len() ==> #[trigger] self.keys@[j] == pre[j + 1]);
                    assert forall|x: LogicalKey| #[trigger] self.keys@.contains(x)
                        implies (pre.contains(x) && x != k) by {
                        let j = choose|j: int|
                            0 <= j < self.keys@.len() && self.keys@[j] == x;
                        if j < i {
                            assert(pre[j] == x);
                            assert(pre[j] != k);
                        } else {
                            assert(pre[j + 1] == x);
                            assert(pre[j + 1] != pre[i as int]);
                        }
                    }
                    assert forall|x: LogicalKey| pre.contains(x) && x != k
                        implies #[trigger] self.keys@.contains(x) by {
                        let j = choose|j: int| 0 <= j < pre.len() && pre[j] == x;
                        if j < i {
                            assert(self.keys@[j] == x);
                        } else {
                            assert(j != i);
                            assert(self.keys@[j - 1] == x);
                        }
                    }
                    assert forall|a: int, b: int|
                        0 <= a < b < self.keys@.len()
                        implies self.keys@[a] != self.keys@[b] by {
                        let a2: int = if a < i { a } else { a + 1 };
                        let b2: int = if b < i { b } else { b + 1 };
                        assert(self.keys@[a] == pre[a2]);
                        assert(self.keys@[b] == pre[b2]);
                    }
                }
                return;
            }
            i = i + 1;
        }
        assert(!self.keys@.contains(k));
    }

    /// Whether every member of `self` is a member of `other`.
    pub fn is_subset_of(&self, other: &KeySet) -> (r: bool)
        ensures
            r == self@.subset_of(other@),
    {
        let mut i: usize = 0;
        while i < self.keys.len()
            invariant
                i <= self.keys@.len(),
                forall|j: int| 0 <= j < i ==> other@.contains(#[trigger] self.keys@[j]),
            decreases self.keys@.len() - i,
        {
            if !other.contains(self.keys[i]) {
                return false;
            }
            i = i + 1;
        }
        true
    }

    /// Whether the set has no members. An empty combo is vacuously always
    /// active, so callers that arm behavior on a combo should guard on this.
    pub fn is_empty(&self) -> (r: bool)
        ensures
            r == (self@ =~= Set::<LogicalKey>::empty()),
    {
        let r = self.keys.len() == 0;
        if r {
            assert(self@ =~= Set::<LogicalKey>::empty());
        } else {
            assert(self@.contains(self.keys@[0]));
        }
        r
    }
}

impl PartialEq for KeySet {
    /// Equality is set equality: order of insertion does not matter.
    fn eq(&self, other: &KeySet) -> (r: bool) {
        let r = self.is_subset_of(other) && other.is_subset_of(self);
        proof {
            if r {
                assert(self@ =~= other@);
            }
        }
        r
    }
}

impl vstd::std_specs::cmp::PartialEqSpecImpl for KeySet {
    open spec fn obeys_eq_spec() -> bool {
        true
    }

    open spec fn eq_spec(&self, other: &KeySet) -> bool {
        self@ == other@
    }
}

/// Snapshot of the two armed conditions, both derived from one snapshot of
/// the pressed-key set: whether the recording combo is fully pressed, and
/// whether the post-processing modifier combo is fully pressed.
#[derive(Clone, Copy, PartialEq, Eq, Structural, Debug)]
pub struct HotkeyState {
    pub is_recording: bool,
    pub is_post_processing: bool,
}

impl HotkeyState {
    /// A fresh state: nothing armed.
    pub fn new() -> (s: Self)
        ensures
            !s.is_recording,
            !s.is_post_processing,
    {
        HotkeyState { is_recording: false, is_post_processing: false }
    }
}

/// A raw keyboard event as the global listener sees it. Keys that can never
/// be a combo member, and events that are not key transitions, carry no
/// information for arming and appear as `Other`.
#[derive(Clone, Copy, PartialEq, Eq, Structural, Debug)]
pub enum KeyEvent {
    Press(LogicalKey),
    Release(LogicalKey),
    Other,
}

/// The pressed-key set after one raw event: press inserts, release removes,
/// anything else leaves the set unchanged.
pub open spec fn spec_apply_key_event(pressed: Set<LogicalKey>, ev: KeyEvent) -> Set<LogicalKey> {
    match ev {
        KeyEvent::Press(k) => pressed.insert(k),
        KeyEvent::Release(k) => pressed.remove(k),
        KeyEvent::Other => pressed,
    }
}

/// The armed pair derived from one snapshot of the pressed-key set: a combo
/// is active exactly when it is a subset of the pressed keys. An empty combo
/// is vacuously active.
pub open spec fn spec_derive_hotkey_state(
    pressed: Set<LogicalKey>,
    recording: Set<LogicalKey>,
    modifier: Set<LogicalKey>,
) -> HotkeyState {
    HotkeyState {
        is_recording: recording.subset_of(pressed),
        is_post_processing: modifier.subset_of(pressed),
    }
}

/// One step of the global input listener: fold a raw event into the
/// pressed-key set and derive both armed flags from the resulting single
/// snapshot. Publishing the returned pair as one unit is what keeps readers
/// from ever observing flags computed from two different snapshots.
pub fn listener_step(
    pressed: &mut KeySet,
    ev: &KeyEvent,
    recording: &KeySet,
    modifier: &KeySet,
) -> (s: HotkeyState)
    requires
        old(pressed).wf(),
    ensures
        final(pressed).wf(),
        final(pressed)@ == spec_apply_key_event(old(pressed)@, *ev),
        s == spec_derive_hotkey_state(final(pressed)@, recording@, modifier@),
{
    match ev {
        KeyEvent::Press(k) => pressed.insert(*k),
        KeyEvent::Release(k) => pressed.remove(*k),
        KeyEvent::Other => (),
    }
    let s = HotkeyState {
        is_recording: recording.is_subset_of(pressed),
        is_post_processing: modifier.is_subset_of(pressed),
    };
    s
}

pub open spec fn kw_shift() -> Seq<char> {
    seq!['s', 'h', 'i', 'f', 't']
}

pub open spec fn kw_control() -> Seq<char> {
    seq!['c', 'o', 'n', 't', 'r', 'o', 'l']
}

pub open spec fn kw_ctrl() -> Seq<char> {
    seq!['c', 't', 'r', 'l']
}

pub open spec fn kw_alt() -> Seq<char> {
    seq!['a', 'l', 't']
}

pub open spec fn kw_space() -> Seq<char> {
    seq!['s', 'p', 'a', 'c', 'e']
}

pub open spec fn kw_enter() -> Seq<char> {
    seq!['e', 'n', 't', 'e', 'r']
}

pub open spec fn kw_escape() -> Seq<char> {
    seq!['e', 's', 'c', 'a', 'p', 'e']
}

/// The key a single combo token names, after trimming and case folding;
/// `None` for a token that names no recognized key.
pub open spec fn token_key(t: Seq<char>) -> Option<LogicalKey> {
    let u = spec_trimmed(t);
    if matches_keyword(u, kw_shift()) {
        Some(LogicalKey::ShiftLeft)
    } else if matches_keyword(u, kw_control()) || matches_keyword(u, kw_ctrl()) {
        Some(LogicalKey::ControlLeft)
    } else if matches_keyword(u, kw_alt()) {
        Some(LogicalKey::Alt)
    } else if matches_keyword(u, kw_space()) {
        Some(LogicalKey::Space)
    } else if matches_keyword(u, kw_enter()) {
        Some(LogicalKey::Return)
    } else if matches_keyword(u, kw_escape()) {
        Some(LogicalKey::Escape)
    } else {
        None
    }
}

/// Splits the rest of a combo string at `'+'`, with `cur` the token piece
/// read so far. A combo string always has at least one token; a separator at
/// the very end yields a final empty token.
pub open spec fn split_tokens_from(s: Seq<char>, cur: Seq<char>) -> Seq<Seq<char>>
    decreases s.len(),
{
    if s.len() == 0 {
        seq![cur]
    } else if s[0] == '+' {
        seq![cur] + split_tokens_from(s.drop_first(), Seq::empty())
    } else {
        split_tokens_from(s.drop_first(), cur.push(s[0]))
    }
}

/// The raw (untrimmed) tokens of a combo string.
pub open spec fn combo_tokens(s: Seq<char>) -> Seq<Seq<char>> {
    split_tokens_from(s, Seq::empty())
}

/// The set of keys a single token contributes: one key for a recognized
/// token, nothing for an unrecognized one.
pub open spec fn token_key_set(t: Seq<char>) -> Set<LogicalKey> {
    match token_key(t) {
        Some(k) => Set::empty().insert(k),
        None => Set::empty(),
    }
}

/// The set of keys a token list contributes.
pub open spec fn keys_of_tokens(ts: Seq<Seq<char>>) -> Set<LogicalKey>
    decreases ts.len(),
{
    if ts.len() == 0 {
        Set::empty()
    } else {
        keys_of_tokens(ts.drop_last()).union(token_key_set(ts.last()))
    }
}

/// The canonical set of keys a combo string names.
pub open spec fn spec_parse_combo(s: Seq<char>) -> Set<LogicalKey> {
    keys_of_tokens(combo_tokens(s))
}

/// The key a single combo token names, or `None` for an unrecognized token.
fn token_to_key(tok: &str) -> (r: Option<LogicalKey>)
    ensures
        r == token_key(tok@),
{
    proof {
        reveal_strlit("shift");
        reveal_strlit("control");
        reveal_strlit("ctrl");
        reveal_strlit("alt");
        reveal_strlit("space");
        reveal_strlit("enter");
        reveal_strlit("escape");
        assert("shift"@ =~= kw_shift());
        assert("control"@ =~= kw_control());
        assert("ctrl"@ =~= kw_ctrl());
        assert("alt"@ =~= kw_alt());
        assert("space"@ =~= kw_space());
        assert("enter"@ =~= kw_enter());
        assert("escape"@ =~= kw_escape());
    }
    let u = trim_str(tok);
    let t = u.as_str();
    if eq_ignore_case(t, "shift") {
        Some(LogicalKey::ShiftLeft)
    } else if eq_ignore_case(t, "control") || eq_ignore_case(t, "ctrl") {
        Some(LogicalKey::ControlLeft)
    } else if eq_ignore_case(t, "alt") {
        Some(LogicalKey::Alt)
    } else if eq_ignore_case(t, "space") {
        Some(LogicalKey::Space)
    } else if eq_ignore_case(t, "enter") {
        Some(LogicalKey::Return)
    } else if eq_ignore_case(t, "escape") {
        Some(LogicalKey::Escape)
    } else {
        None
    }
}

/// Parses a combo string such as `"Shift+Space"` into its set of keys.
/// Tokens are separated by `'+'`, padded by optional whitespace, and matched
/// case-insensitively; an unrecognized token contributes no key. Parsing the
/// same string twice yields equal sets, and reordering tokens never changes
/// the result.
pub fn parse_hotkey(hotkey: &str) -> (r: KeySet)
    ensures
        r.wf(),
        r@ == spec_parse_combo(hotkey@),
{
    let n = hotkey.unicode_len();
    let mut keys = KeySet::new();
    let mut tok_start: usize = 0;
    let ghost mut done: Seq<Seq<char>> = Seq::empty();
    let mut i: usize = 0;
    proof {
        assert(hotkey@.skip(0) =~= hotkey@);
        assert(hotkey@.subrange(0, 0) =~= Seq::<char>::empty());
        assert(done + split_tokens_from(hotkey@, Seq::empty())
            =~= split_tokens_from(hotkey@, Seq::empty()));
    }
    while i < n
        invariant
            tok_start <= i <= n,
            n == hotkey@.len(),
            keys.wf(),
            keys@ == keys_of_tokens(done),
            combo_tokens(hotkey@) == done + split_tokens_from(
                hotkey@.skip(i as int),
                hotkey@.subrange(tok_start as int, i as int),
            ),
        decreases n - i,
    {
        let ghost cur = hotkey@.subrange(tok_start as int, i as int);
        if hotkey.get_char(i) == '+' {
            let tok = hotkey.substring_char(tok_start, i);
            match token_to_key(tok) {
                Some(k) => keys.insert(k),
                None => (),
            }
            proof {
                assert(hotkey@.skip(i as int)[0] == '+');
                assert(hotkey@.skip(i as int).drop_first() =~= hotkey@.skip(i as int + 1));
                let done2 = done.push(cur);
                assert(done2.drop_last() =~= done);
                assert(done + (seq![cur] + split_tokens_from(
                    hotkey@.skip(i as int + 1),
                    Seq::empty(),
                )) =~= done2 + split_tokens_from(hotkey@.skip(i as int + 1), Seq::empty()));
                assert(keys@ =~= keys_of_tokens(done2));
                done = done2;
                assert(hotkey@.subrange(i as int + 1, i as int + 1) =~= Seq::<char>::empty());
            }
            tok_start = i + 1;
        } else {
            proof {
                assert(hotkey@.skip(i as int)[0] == hotkey@[i as int]);
                assert(hotkey@.skip(i as int).drop_first() =~= hotkey@.skip(i as int + 1));
                assert(cur.push(hotkey@[i as int])
                    =~= hotkey@.subrange(tok_start as int, i as int + 1));
            }
        }
        i = i + 1;
    }
    let tok = hotkey.substring_char(tok_start, n);
    match token_to_key(tok) {
        Some(k) => keys.insert(k),
        None => (),
    }
    proof {
        let ghost cur = hotkey@.subrange(tok_start as int, n as int);
        assert(hotkey@.skip(n as int) =~= Seq::<char>::empty());
        assert(combo_tokens(hotkey@) =~= done.push(cur));
        assert(done.push(cur).drop_last() =~= done);
        assert(keys@ =~= keys_of_tokens(done.push(cur)));
    }
    keys
}

/// A key is contributed by a token list exactly when some token of the list
/// names it: recognized tokens contribute their key and nothing else, and an
/// unrecognized token contributes no key at all.
pub proof fn lemma_keys_of_tokens_membership(ts: Seq<Seq<char>>, k: LogicalKey)
    ensures
        keys_of_tokens(ts).contains(k) <==> exists|i: int|
            0 <= i < ts.len() && token_key(#[trigger] ts[i]) == Some(k),
    decreases ts.len(),
{
    if ts.len() > 0 {
        lemma_keys_of_tokens_membership(ts.drop_last(), k);
        if keys_of_tokens(ts).contains(k) {
            if keys_of_tokens(ts.drop_last()).contains(k) {
                let i = choose|i: int|
                    0 <= i < ts.drop_last().len() && token_key(#[trigger] ts.drop_last()[i])
                        == Some(k);
                assert(ts[i] == ts.drop_last()[i]);
            } else {
                assert(token_key(ts[ts.len() - 1]) == Some(k));
            }
        }
        if exists|i: int| 0 <= i < ts.len() && token_key(#[trigger] ts[i]) == Some(k) {
            let i = choose|i: int| 0 <= i < ts.len() && token_key(#[trigger] ts[i]) == Some(k);
            if i < ts.len() - 1 {
                assert(ts.drop_last()[i] == ts[i]);
                assert(keys_of_tokens(ts.drop_last()).contains(k));
            } else {
                assert(token_key_set(ts.last()).contains(k));
            }
        }
    }
}

/// Parsing is order-independent: two combo strings whose token lists are
/// permutations of one another parse to the same key set.
pub proof fn lemma_parse_order_independent(s1: Seq<char>, s2: Seq<char>)
    requires
        combo_tokens(s1).to_multiset() == combo_tokens(s2).to_multiset(),
    ensures
        spec_parse_combo(s1) == spec_parse_combo(s2),
{
    broadcast use vstd::seq_lib::group_to_multiset_ensures;

    let ts1 = combo_tokens(s1);
    let ts2 = combo_tokens(s2);
    assert forall|k: LogicalKey| #[trigger] keys_of_tokens(ts1).contains(k)
        implies keys_of_tokens(ts2).contains(k) by {
        lemma_keys_of_tokens_membership(ts1, k);
        lemma_keys_of_tokens_membership(ts2, k);
        let i = choose|i: int| 0 <= i < ts1.len() && token_key(#[trigger] ts1[i]) == Some(k);
        assert(ts1.contains(ts1[i]));
        assert(ts2.to_multiset().count(ts1[i]) > 0);
        assert(ts2.contains(ts1[i]));
        let j = choose|j: int| 0 <= j < ts2.len() && ts2[j] == ts1[i];
        assert(token_key(ts2[j]) == Some(k));
    }
    assert forall|k: LogicalKey| #[trigger] keys_of_tokens(ts2).contains(k)
        implies keys_of_tokens(ts1).contains(k) by {
        lemma_keys_of_tokens_membership(ts1, k);
        lemma_keys_of_tokens_membership(ts2, k);
        let i = choose|i: int| 0 <= i < ts2.len() && token_key(#[trigger] ts2[i]) == Some(k);
        assert(ts2.contains(ts2[i]));
        assert(ts1.to_multiset().count(ts2[i]) > 0);
        assert(ts1.contains(ts2[i]));
        let j = choose|j: int| 0 <= j < ts1.len() && ts1[j] == ts2[i];
        assert(token_key(ts1[j]) == Some(k));
    }
    assert(spec_parse_combo(s1) =~= spec_parse_combo(s2));
}

/// An unrecognized token contributes no key: deleting it from the token list
/// leaves the parsed key set unchanged.
pub proof fn lemma_unknown_token_contributes_nothing(ts: Seq<Seq<char>>, i: int)
    requires
        0 <= i < ts.len(),
        token_key(ts[i]) is None,
    ensures
        keys_of_tokens(ts) == keys_of_tokens(ts.remove(i)),
{
    let ts2 = ts.remove(i);
    assert forall|k: LogicalKey| #[trigger] keys_of_tokens(ts).contains(k)
        implies keys_of_tokens(ts2).contains(k) by {
        lemma_keys_of_tokens_membership(ts, k);
        lemma_keys_of_tokens_membership(ts2, k);
        let j = choose|j: int| 0 <= j < ts.len() && token_key(#[trigger] ts[j]) == Some(k);
        assert(j != i);
        if j < i {
            assert(ts2[j] == ts[j]);
        } else {
            assert(ts2[j - 1] == ts[j]);
        }
    }
    assert forall|k: LogicalKey| #[trigger] keys_of_tokens(ts2).contains(k)
        implies keys_of_tokens(ts).contains(k) by {
        lemma_keys_of_tokens_membership(ts, k);
        lemma_keys_of_tokens_membership(ts2, k);
        let j = choose|j: int| 0 <= j < ts2.len() && token_key(#[trigger] ts2[j]) == Some(k);
        if j < i {
            assert(ts[j] == ts2[j]);
        } else {
            assert(ts[j + 1] == ts2[j]);
        }
    }
    assert(keys_of_tokens(ts) =~= keys_of_tokens(ts2));
}

/// Both fields of a derived state reflect the one pressed-key snapshot they
/// were computed from: there is no state in which one flag answers to an
/// earlier snapshot and the other to a later one.
pub proof fn lemma_derived_state_single_snapshot(
    pressed: Set<LogicalKey>,
    recording: Set<LogicalKey>,
    modifier: Set<LogicalKey>,
)
    ensures
        spec_derive_hotkey_state(pressed, recording, modifier).is_recording
            == recording.subset_of(pressed),
        spec_derive_hotkey_state(pressed, recording, modifier).is_post_processing
            == modifier.subset_of(pressed),
{
}

} // verus!
