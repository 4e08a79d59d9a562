//! Global keyboard shortcuts: a registry keyed by shortcut id, the keys
//! registered with the platform, and the default set.

use vstd::prelude::*;

verus! {

broadcast use vstd::string::group_string_axioms;

/// A keyboard shortcut: its key combination (such as
/// `CommandOrControl+K`) and the action it triggers.
#[derive(Debug, Clone)]
pub struct Shortcut {
    pub id: String,
    pub key: String,
    pub description: String,
    pub action: String,
    pub enabled: bool,
}

/// A list of shortcuts.
#[derive(Debug, Clone)]
pub struct ShortcutConfig {
    pub shortcuts: Vec<Shortcut>,
}

/// A shortcut as text.
pub struct ShortcutView {
    pub id: Seq<char>,
    pub key: Seq<char>,
    pub description: Seq<char>,
    pub action: Seq<char>,
    pub enabled: bool,
}

impl View for Shortcut {
    type V = ShortcutView;

    open spec fn view(&self) -> ShortcutView {
        ShortcutView {
            id: self.id@,
            key: self.key@,
            description: self.description@,
            action: self.action@,
            enabled: self.enabled,
        }
    }
}

impl Shortcut {
    /// A copy of this shortcut.
    pub fn duplicate(&self) -> (r: Shortcut)
        ensures
            r@ == self@,
    {
        Shortcut {
            id: self.id.clone(),
            key: self.key.clone(),
            description: self.description.clone(),
            action: self.action.clone(),
            enabled: self.enabled,
        }
    }
}

/// The views of a list of shortcuts.
pub open spec fn views(v: Seq<Shortcut>) -> Seq<ShortcutView> {
    v.map_values(|s: Shortcut| s@)
}

// ---------------------------------------------------------------------------
// The registry as a sequence keyed by id
// ---------------------------------------------------------------------------

/// Some entry of `s` has the id `id`.
pub open spec fn has_id(s: Seq<ShortcutView>, id: Seq<char>) -> bool {
    exists|i: int| 0 <= i < s.len() && (#[trigger] s[i]).id == id
}

/// No two entries of `s` share an id.
pub open spec fn ids_distinct(s: Seq<ShortcutView>) -> bool {
    forall|i: int, j: int| 0 <= i < j < s.len() ==> (#[trigger] s[i]).id != (#[trigger] s[j]).id
}

/// The position of the entry with id `id`, where there is one.
pub open spec fn index_of_id(s: Seq<ShortcutView>, id: Seq<char>) -> int {
    choose|i: int| 0 <= i < s.len() && (#[trigger] s[i]).id == id
}

/// The entry with id `id`, where there is one.
pub open spec fn lookup(s: Seq<ShortcutView>, id: Seq<char>) -> Option<ShortcutView> {
    if has_id(s, id) {
        Some(s[index_of_id(s, id)])
    } else {
        None
    }
}

/// `s` with `sc` stored under its id: it replaces the entry with that id,
/// or comes last where there is none.
pub open spec fn with_shortcut(s: Seq<ShortcutView>, sc: ShortcutView) -> Seq<ShortcutView> {
    if has_id(s, sc.id) {
        s.update(index_of_id(s, sc.id), sc)
    } else {
        s.push(sc)
    }
}

/// `s` without the entry with id `id`.
pub open spec fn without_id(s: Seq<ShortcutView>, id: Seq<char>) -> Seq<ShortcutView> {
    if has_id(s, id) {
        s.remove(index_of_id(s, id))
    } else {
        s
    }
}

/// Some entry of `s` uses the key combination `key`.
pub open spec fn key_in_use(s: Seq<ShortcutView>, key: Seq<char>) -> bool {
    exists|i: int| 0 <= i < s.len() && (#[trigger] s[i]).key == key
}

/// `keys` without every copy of `key` (`Vec::retain`).
pub open spec fn drop_key(keys: Seq<Seq<char>>, key: Seq<char>) -> Seq<Seq<char>>
    decreases keys.len(),
{
    if keys.len() == 0 {
        Seq::empty()
    } else if keys.last() == key {
        drop_key(keys.drop_last(), key)
    } else {
        drop_key(keys.drop_last(), key).push(keys.last())
    }
}

/// `v` with its key replaced where a new one is given, and its enabled
/// flag replaced where a new one is given.
pub open spec fn updated(v: ShortcutView, new_key: Option<Seq<char>>, enabled: Option<bool>) -> ShortcutView {
    ShortcutView {
        key: match new_key {
            Some(k) => k,
            None => v.key,
        },
        enabled: match enabled {
            Some(e) => e,
            None => v.enabled,
        },
        ..v
    }
}

/// One default shortcut, enabled, whose id is also its action.
pub open spec fn default_entry(id: Seq<char>, key: Seq<char>, description: Seq<char>) -> ShortcutView {
    ShortcutView { id, key, description, action: id, enabled: true }
}

/// The shortcuts the application starts with.
pub open spec fn default_shortcuts() -> Seq<ShortcutView> {
    seq![
        default_entry("open_chat"@, "CommandOrControl+K"@, "Open chat interface"@),
        default_entry("toggle_window"@, "CommandOrControl+Shift+Space"@, "Toggle main window"@),
        default_entry("new_composer"@, "CommandOrControl+Shift+N"@, "New composer session"@),
        default_entry("voice_input"@, "CommandOrControl+Shift+V"@, "Start voice input"@),
        default_entry("quick_capture"@, "CommandOrControl+Shift+S"@, "Quick screen capture"@),
    ]
}

// ---------------------------------------------------------------------------
// Laws
// ---------------------------------------------------------------------------

/// Where ids are distinct, the entry found for an id is the one at the
/// position where it occurs.
pub proof fn lemma_index_of_id(s: Seq<ShortcutView>, k: int)
    requires
        ids_distinct(s),
        0 <= k < s.len(),
    ensures
        has_id(s, s[k].id),
        index_of_id(s, s[k].id) == k,
        lookup(s, s[k].id) == Some(s[k]),
{
    let i = index_of_id(s, s[k].id);
    assert(0 <= i < s.len() && s[i].id == s[k].id);
    if i < k {
        assert(s[i].id != s[k].id);
    } else if k < i {
        assert(s[k].id != s[i].id);
    }
}

/// Registering a shortcut keeps ids distinct; afterwards its id finds it,
/// and every other id finds what it found before.
pub proof fn law_register_then_lookup(s: Seq<ShortcutView>, sc: ShortcutView, id: Seq<char>)
    requires
        ids_distinct(s),
    ensures
        ids_distinct(with_shortcut(s, sc)),
        lookup(with_shortcut(s, sc), id) == (if id == sc.id {
            Some(sc)
        } else {
            lookup(s, id)
        }),
{
    let t = with_shortcut(s, sc);
    if has_id(s, sc.id) {
        let k = index_of_id(s, sc.id);
        assert(ids_distinct(t)) by {
            assert forall|i: int, j: int| 0 <= i < j < t.len() implies (#[trigger] t[i]).id != (
            #[trigger] t[j]).id by {
                assert(s[i].id != s[j].id);
            }
        }
    } else {
        assert(ids_distinct(t)) by {
            assert forall|i: int, j: int| 0 <= i < j < t.len() implies (#[trigger] t[i]).id != (
            #[trigger] t[j]).id by {
                if j == s.len() {
                    assert(s[i].id != sc.id);
                } else {
                    assert(s[i].id != s[j].id);
                }
            }
        }
    }
    if id == sc.id {
        let k = if has_id(s, sc.id) { index_of_id(s, sc.id) } else { s.len() as int };
        assert(t[k] == sc);
        lemma_index_of_id(t, k);
    } else if has_id(s, id) {
        let k = index_of_id(s, id);
        assert(t[k] == s[k]);
        lemma_index_of_id(t, k);
    } else {
        assert(!has_id(t, id)) by {
            if has_id(t, id) {
                let k = index_of_id(t, id);
                if k < s.len() {
                    assert(s[k].id == id);
                }
            }
        }
    }
}

/// Unregistering an id keeps ids distinct; afterwards that id finds
/// nothing, and every other id finds what it found before.
pub proof fn law_unregister_then_lookup(s: Seq<ShortcutView>, id: Seq<char>, other: Seq<char>)
    requires
        ids_distinct(s),
    ensures
        ids_distinct(without_id(s, id)),
        lookup(without_id(s, id), other) == (if other == id {
            None
        } else {
            lookup(s, other)
        }),
{
    let t = without_id(s, id);
    if has_id(s, id) {
        let k = index_of_id(s, id);
        assert(ids_distinct(t)) by {
            assert forall|i: int, j: int| 0 <= i < j < t.len() implies (#[trigger] t[i]).id != (
            #[trigger] t[j]).id by {
                let si = if i < k { i } else { i + 1 };
                let sj = if j < k { j } else { j + 1 };
                assert(t[i] == s[si]);
                assert(t[j] == s[sj]);
                assert(s[si].id != s[sj].id);
            }
        }
        if other == id {
            assert(!has_id(t, id)) by {
                if has_id(t, id) {
                    let m = index_of_id(t, id);
                    let sm = if m < k { m } else { m + 1 };
                    assert(t[m] == s[sm]);
                    if sm < k {
                        assert(s[sm].id != s[k].id);
                    } else {
                        assert(s[k].id != s[sm].id);
                    }
                }
            }
        } else if has_id(s, other) {
            let m = index_of_id(s, other);
            let tm = if m < k { m } else { m - 1 };
            assert(t[tm] == s[m]);
            lemma_index_of_id(t, tm);
        } else {
            assert(!has_id(t, other)) by {
                if has_id(t, other) {
                    let m = index_of_id(t, other);
                    let sm = if m < k { m } else { m + 1 };
                    assert(t[m] == s[sm]);
                }
            }
        }
    }
}

/// After registering a shortcut, its key combination is in use.
pub proof fn law_register_then_key_in_use(s: Seq<ShortcutView>, sc: ShortcutView)
    ensures
        key_in_use(with_shortcut(s, sc), sc.key),
{
    let t = with_shortcut(s, sc);
    let k = if has_id(s, sc.id) { index_of_id(s, sc.id) } else { s.len() as int };
    assert(t[k] == sc);
}

/// Dropping a key from the registered keys leaves none of it and keeps
/// every other key.
pub proof fn law_drop_key(keys: Seq<Seq<char>>, key: Seq<char>, other: Seq<char>)
    ensures
        !drop_key(keys, key).contains(key),
        other != key ==> (drop_key(keys, key).contains(other) <==> keys.contains(other)),
    decreases keys.len(),
{
    if keys.len() > 0 {
        law_drop_key(keys.drop_last(), key, other);
        let d = drop_key(keys.drop_last(), key);
        if keys.last() != key {
            assert(d.push(keys.last()).contains(other) <==> (d.contains(other) || keys.last()
                == other)) by {
                if d.push(keys.last()).contains(other) {
                    let i = choose|i: int| 0 <= i < d.len() + 1 && d.push(keys.last())[i] == other;
                    if i < d.len() {
                        assert(d[i] == other);
                    }
                }
                if d.contains(other) {
                    let i = choose|i: int| 0 <= i < d.len() && d[i] == other;
                    assert(d.push(keys.last())[i] == other);
                }
                assert(d.push(keys.last())[d.len() as int] == keys.last());
            }
            assert(!d.push(keys.last()).contains(key)) by {
                if d.push(keys.last()).contains(key) {
                    let i = choose|i: int| 0 <= i < d.len() + 1 && d.push(keys.last())[i] == key;
                    if i < d.len() {
                        assert(d[i] == key);
                    }
                }
            }
        }
        assert(keys.contains(other) <==> (keys.drop_last().contains(other) || keys.last()
            == other)) by {
            if keys.contains(other) {
                let i = choose|i: int| 0 <= i < keys.len() && keys[i] == other;
                if i < keys.len() - 1 {
                    assert(keys.drop_last()[i] == other);
                }
            }
            if keys.drop_last().contains(other) {
                let i = choose|i: int| 0 <= i < keys.len() - 1 && keys.drop_last()[i] == other;
                assert(keys[i] == other);
            }
        }
    }
}

/// The default shortcuts have distinct ids.
pub proof fn law_defaults_distinct()
    ensures
        ids_distinct(default_shortcuts()),
        default_shortcuts().len() == 5,
{
    reveal_strlit("open_chat");
    reveal_strlit("toggle_window");
    reveal_strlit("new_composer");
    reveal_strlit("voice_input");
    reveal_strlit("quick_capture");
    let d = default_shortcuts();
    assert forall|i: int, j: int| 0 <= i < j < d.len() implies (#[trigger] d[i]).id != (
    #[trigger] d[j]).id by {
        assert(d[i].id.len() != d[j].id.len() || d[i].id[0] != d[j].id[0]);
    }
}

// ---------------------------------------------------------------------------
// The registry
// ---------------------------------------------------------------------------

/// The registered shortcuts, keyed by id, and the key combinations
/// registered with the platform.
pub struct ShortcutsState {
    shortcuts: Vec<Shortcut>,
    registered_keys: Vec<String>,
}

impl ShortcutsState {
    /// The shortcuts, in the order they were first registered.
    pub closed spec fn entries(&self) -> Seq<ShortcutView> {
        views(self.shortcuts@)
    }

    /// The key combinations registered with the platform.
    pub closed spec fn keys(&self) -> Seq<Seq<char>> {
        self.registered_keys.deep_view()
    }

    /// No two shortcuts share an id.
    pub open spec fn wf(&self) -> bool {
        ids_distinct(self.entries())
    }

    /// A registry with no shortcut.
    pub fn new() -> (r: ShortcutsState)
        ensures
            r.wf(),
            r.entries() == Seq::<ShortcutView>::empty(),
            r.keys() == Seq::<Seq<char>>::empty(),
    {
        let r = ShortcutsState { shortcuts: Vec::new(), registered_keys: Vec::new() };
        assert(r.entries() =~= Seq::<ShortcutView>::empty());
        assert(r.keys() =~= Seq::<Seq<char>>::empty());
        r
    }

    /// A registry holding the default shortcuts.
    pub fn with_defaults() -> (r: ShortcutsState)
        ensures
            r.wf(),
            r.entries() == default_shortcuts(),
            r.keys() == Seq::<Seq<char>>::empty(),
    {
        let shortcuts = default_list();
        proof {
            law_defaults_distinct();
        }
        let r = ShortcutsState { shortcuts, registered_keys: Vec::new() };
        assert(r.keys() =~= Seq::<Seq<char>>::empty());
        r
    }

    /// The position of the shortcut with id `id`, where there is one.
    fn position(&self, id: &String) -> (r: Option<usize>)
        requires
            self.wf(),
        ensures
            match r {
                Some(k) => k < self.shortcuts.len() && has_id(self.entries(), id@) && index_of_id(
                    self.entries(),
                    id@,
                ) == k,
                None => !has_id(self.entries(), id@),
            },
    {
        let mut k: usize = 0;
        while k < self.shortcuts.len()
            invariant
                self.wf(),
                k <= self.shortcuts.len(),
                forall|j: int| 0 <= j < k ==> (#[trigger] self.entries()[j]).id != id@,
            decreases self.shortcuts.len() - k,
        {
            assert(self.entries()[k as int] == self.shortcuts@[k as int]@);
            if self.shortcuts[k].id == *id {
                proof {
                    lemma_index_of_id(self.entries(), k as int);
                }
                return Some(k);
            }
            k += 1;
        }
        None
    }

    /// Stores `shortcut` under its id, replacing the one stored there; where
    /// the platform registers global keys, also records its key.
    pub fn register(&mut self, shortcut: Shortcut, record_key: bool)
        requires
            old(self).wf(),
        ensures
            final(self).wf(),
            final(self).entries() == with_shortcut(old(self).entries(), shortcut@),
            final(self).keys() == (if record_key {
                old(self).keys().push(shortcut.key@)
            } else {
                old(self).keys()
            }),
    {
        proof {
            law_register_then_lookup(self.entries(), shortcut@, shortcut.id@);
        }
        let ghost e0 = self.entries();
        let key = shortcut.key.clone();
        match self.position(&shortcut.id) {
            Some(k) => {
                self.shortcuts.set(k, shortcut);
                assert(self.entries() =~= e0.update(k as int, shortcut@));
            },
            None => {
                self.shortcuts.push(shortcut);
                assert(self.entries() =~= e0.push(shortcut@));
            },
        }
        if record_key {
            let ghost k0 = self.registered_keys.deep_view();
            self.registered_keys.push(key);
            assert(self.registered_keys.deep_view() =~= k0.push(key@));
        }
    }

    /// Removes the keys equal to `key` from the registered keys.
    fn forget_key(&mut self, key: &String)
        ensures
            final(self).shortcuts == old(self).shortcuts,
            final(self).keys() == drop_key(old(self).keys(), key@),
    {
        let ghost k0 = self.keys();
        let mut kept: Vec<String> = Vec::new();
        let mut i: usize = 0;
        while i < self.registered_keys.len()
            invariant
                i <= self.registered_keys.len(),
                k0 == self.registered_keys.deep_view(),
                kept.deep_view() == drop_key(k0.take(i as int), key@),
            decreases self.registered_keys.len() - i,
        {
            assert(k0.take(i + 1).drop_last() =~= k0.take(i as int));
            assert(k0.take(i + 1).last() == self.registered_keys@[i as int]@);
            if self.registered_keys[i] != *key {
                let ghost before = kept.deep_view();
                kept.push(self.registered_keys[i].clone());
                assert(kept.deep_view() =~= before.push(self.registered_keys@[i as int]@));
            }
            i += 1;
        }
        assert(k0.take(k0.len() as int) =~= k0);
        self.registered_keys = kept;
    }

    /// Removes the shortcut with id `id`, and its key from the registered
    /// keys; gives back the shortcut removed, where there was one.
    pub fn unregister(&mut self, id: &String) -> (r: Option<Shortcut>)
        requires
            old(self).wf(),
        ensures
            final(self).wf(),
            match r {
                Some(s) => lookup(old(self).entries(), id@) == Some(s@),
                None => lookup(old(self).entries(), id@) is None,
            },
            final(self).entries() == without_id(old(self).entries(), id@),
            final(self).keys() == match lookup(old(self).entries(), id@) {
                Some(s) => drop_key(old(self).keys(), s.key),
                None => old(self).keys(),
            },
    {
        proof {
            law_unregister_then_lookup(self.entries(), id@, id@);
        }
        let ghost e0 = self.entries();
        match self.position(id) {
            Some(k) => {
                let removed = self.shortcuts.remove(k);
                assert(self.entries() =~= e0.remove(k as int));
                self.forget_key(&removed.key);
                Some(removed)
            },
            None => None,
        }
    }

    /// Copies of all the shortcuts.
    pub fn list(&self) -> (r: Vec<Shortcut>)
        ensures
            views(r@) == self.entries(),
    {
        copy_list(&self.shortcuts)
    }

    /// Gives the shortcut with id `id` a new key, where one is given
    /// (moving it in the registered keys), and a new enabled flag, where
    /// one is given; gives back the shortcut as updated, or an error where
    /// no shortcut has that id.
    pub fn update(&mut self, id: &String, new_key: Option<String>, enabled: Option<bool>) -> (r:
        Result<Shortcut, String>)
        requires
            old(self).wf(),
        ensures
            final(self).wf(),
            match lookup(old(self).entries(), id@) {
                None => r matches Err(e) && e@ == "Shortcut not found"@ && final(self).entries()
                    == old(self).entries() && final(self).keys() == old(self).keys(),
                Some(v) => r matches Ok(s) && s@ == updated(v, new_key.deep_view(), enabled)
                    && final(self).entries() == with_shortcut(old(self).entries(), s@)
                    && final(self).keys() == match new_key {
                    Some(k) => drop_key(old(self).keys(), v.key).push(k@),
                    None => old(self).keys(),
                },
            },
    {
        let ghost e0 = self.entries();
        let k = match self.position(id) {
            Some(k) => k,
            None => {
                return Err("Shortcut not found".to_owned());
            },
        };
        let old_entry = self.shortcuts[k].duplicate();
        let mut entry = self.shortcuts[k].duplicate();
        assert(e0[k as int] == old_entry@);
        match new_key {
            Some(key) => {
                self.forget_key(&old_entry.key);
                let ghost k1 = self.keys();
                self.registered_keys.push(key.clone());
                assert(self.registered_keys.deep_view() =~= k1.push(key@));
                entry.key = key;
            },
            None => {},
        }
        match enabled {
            Some(e) => {
                entry.enabled = e;
            },
            None => {},
        }
        let result = entry.duplicate();
        proof {
            lemma_index_of_id(e0, k as int);
            law_register_then_lookup(e0, entry@, id@);
        }
        self.shortcuts.set(k, entry);
        assert(self.entries() =~= e0.update(k as int, result@));
        Ok(result)
    }

    /// Puts back the default shortcuts in place of all the others, and
    /// gives copies of them.
    pub fn reset(&mut self) -> (r: Vec<Shortcut>)
        ensures
            final(self).wf(),
            final(self).entries() == default_shortcuts(),
            final(self).keys() == old(self).keys(),
            views(r@) == default_shortcuts(),
    {
        proof {
            law_defaults_distinct();
        }
        self.shortcuts = default_list();
        copy_list(&self.shortcuts)
    }

    /// Whether some shortcut uses the key combination `key`.
    pub fn check_key(&self, key: &String) -> (r: bool)
        ensures
            r == key_in_use(self.entries(), key@),
    {
        let mut i: usize = 0;
        while i < self.shortcuts.len()
            invariant
                i <= self.shortcuts.len(),
                forall|j: int| 0 <= j < i ==> (#[trigger] self.entries()[j]).key != key@,
            decreases self.shortcuts.len() - i,
        {
            assert(self.entries()[i as int] == self.shortcuts@[i as int]@);
            if self.shortcuts[i].key == *key {
                return true;
            }
            i += 1;
        }
        false
    }

    /// Copies of the default shortcuts.
    pub fn get_defaults() -> (r: Vec<Shortcut>)
        ensures
            views(r@) == default_shortcuts(),
    {
        default_list()
    }
}

impl Default for ShortcutsState {
    fn default() -> (r: ShortcutsState)
        ensures
            r.wf(),
            r.entries() == default_shortcuts(),
            r.keys() == Seq::<Seq<char>>::empty(),
    {
        ShortcutsState::with_defaults()
    }
}

/// One default shortcut.
fn default_shortcut(id: &str, key: &str, description: &str) -> (r: Shortcut)
    ensures
        r@ == default_entry(id@, key@, description@),
{
    Shortcut {
        id: id.to_owned(),
        key: key.to_owned(),
        description: description.to_owned(),
        action: id.to_owned(),
        enabled: true,
    }
}

/// The default shortcuts.
fn default_list() -> (r: Vec<Shortcut>)
    ensures
        views(r@) == default_shortcuts(),
{
    let mut r: Vec<Shortcut> = Vec::new();
    r.push(default_shortcut("open_chat", "CommandOrControl+K", "Open chat interface"));
    r.push(default_shortcut("toggle_window", "CommandOrControl+Shift+Space", "Toggle main window"));
    r.push(default_shortcut("new_composer", "CommandOrControl+Shift+N", "New composer session"));
    r.push(default_shortcut("voice_input", "CommandOrControl+Shift+V", "Start voice input"));
    r.push(default_shortcut("quick_capture", "CommandOrControl+Shift+S", "Quick screen capture"));
    assert(views(r@) =~= default_shortcuts());
    r
}

/// Copies of the shortcuts of `v`.
fn copy_list(v: &Vec<Shortcut>) -> (r: Vec<Shortcut>)
    ensures
        views(r@) == views(v@),
{
    let mut r: Vec<Shortcut> = Vec::new();
    let mut i: usize = 0;
    while i < v.len()
        invariant
            i <= v.len(),
            views(r@) =~= views(v@).take(i as int),
        decreases v.len() - i,
    {
        let ghost before = r@;
        r.push(v[i].duplicate());
        assert(views(r@) =~= views(before).push(v@[i as int]@));
        i += 1;
    }
    assert(views(v@).take(v.len() as int) =~= views(v@));
    r
}

} // verus!
