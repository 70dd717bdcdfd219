//! Device-supplied names as local file names: which cannot be used, and which would collide.

use vstd::prelude::*;

use crate::outside;
use crate::search;
use crate::text;

verus! {

/// Whether a text holds a character.
pub open spec fn holds(s: Seq<char>, c: char) -> bool {
    exists|i: int| 0 <= i < s.len() && #[trigger] s[i] == c
}

/// Whether a character cannot stand in a Windows file name.
pub open spec fn is_forbidden_on_windows(c: char) -> bool {
    c == '<' || c == '>' || c == ':' || c == '"' || c == '|' || c == '?' || c == '*' || (c as u32)
        < 0x20
}

/// A name up to its first dot.
pub open spec fn stem_of(name: Seq<char>) -> Seq<char> {
    match search::first_where(name, |c: char| c == '.') {
        Some(i) => name.take(i),
        None => name,
    }
}

/// Whether a text is one decimal digit, or one of the three superscript digits that Windows counts as
/// port numbers.
pub open spec fn is_port_number(s: Seq<char>) -> bool {
    s.len() == 1 && ('0' <= s[0] <= '9' || s[0] == '\u{b9}' || s[0] == '\u{b2}' || s[0] == '\u{b3}')
}

/// Whether Windows reserves a stem, in upper case, for a device: the console and its like, and the
/// numbered ports.
pub open spec fn is_reserved(stem: Seq<char>) -> bool {
    ||| stem == "CON"@
    ||| stem == "PRN"@
    ||| stem == "AUX"@
    ||| stem == "NUL"@
    ||| ("COM"@.is_prefix_of(stem) || "LPT"@.is_prefix_of(stem)) && is_port_number(stem.skip(3))
}

/// Why a name cannot be a local file name, or `None` if it can.
pub open spec fn name_problem(name: Seq<char>, windows: bool) -> Option<Seq<char>> {
    if name.len() == 0 {
        Some("empty"@)
    } else if name == "."@ || name == ".."@ {
        Some("`.` and `..` aren't names"@)
    } else if holds(name, '/') || holds(name, '\\') {
        Some("contains a path separator"@)
    } else if holds(name, '\u{0}') {
        Some("contains a null byte"@)
    } else if !windows {
        None
    } else if exists|i: int| 0 <= i < name.len() && is_forbidden_on_windows(#[trigger] name[i]) {
        Some("contains a character Windows doesn't allow"@)
    } else if name.last() == '.' || name.last() == ' ' {
        Some("ends with a dot or space, which Windows drops"@)
    } else if is_reserved(text::ascii_uppercase(stem_of(name))) {
        Some("a reserved device name on Windows"@)
    } else {
        None
    }
}

/// Whether the characters hold this one.
fn find_char(s: &Vec<char>, c: char) -> (r: bool)
    ensures
        r == holds(s@, c),
{
    let mut i: usize = 0;
    while i < s.len()
        invariant
            i <= s@.len(),
            forall|j: int| 0 <= j < i ==> s@[j] != c,
        decreases s.len() - i,
    {
        if s[i] == c {
            assert(s@[i as int] == c);
            return true;
        }
        i = i + 1;
    }
    false
}

/// Whether the characters hold one that cannot stand in a Windows file name.
fn find_forbidden(s: &Vec<char>) -> (r: bool)
    ensures
        r == exists|i: int| 0 <= i < s@.len() && is_forbidden_on_windows(#[trigger] s@[i]),
{
    let mut i: usize = 0;
    while i < s.len()
        invariant
            i <= s@.len(),
            forall|j: int| 0 <= j < i ==> !is_forbidden_on_windows(#[trigger] s@[j]),
        decreases s.len() - i,
    {
        let c = s[i];
        if c == '<' || c == '>' || c == ':' || c == '"' || c == '|' || c == '?' || c == '*' || (
        c as u32) < 0x20 {
            assert(is_forbidden_on_windows(s@[i as int]));
            return true;
        }
        i = i + 1;
    }
    false
}

/// The characters up to the first dot.
fn find_stem(s: &Vec<char>) -> (r: Vec<char>)
    ensures
        r@ == stem_of(s@),
{
    let ghost dot = |c: char| c == '.';
    let mut r: Vec<char> = Vec::new();
    let mut i: usize = 0;
    while i < s.len()
        invariant
            i <= s@.len(),
            dot == (|c: char| c == '.'),
            r@ == s@.take(i as int),
            forall|j: int| 0 <= j < i ==> !dot(#[trigger] s@[j]),
        decreases s.len() - i,
    {
        if s[i] == '.' {
            proof {
                assert(dot(s@[i as int]));
                search::lemma_first_where_at(s@, dot, i as int);
            }
            return r;
        }
        assert(!dot(s@[i as int]));
        r.push(s[i]);
        i = i + 1;
        assert(r@ =~= s@.take(i as int));
    }
    proof {
        search::lemma_first_where_none(s@, dot);
        assert(s@.take(i as int) =~= s@);
    }
    r
}

/// Whether the characters begin with a text of three, and are a port number after it.
fn names_port(stem: &Vec<char>, port: &str) -> (r: bool)
    requires
        port@.len() == 3,
    ensures
        r == (port@.is_prefix_of(stem@) && is_port_number(stem@.skip(3))),
{
    let prefix = text::chars_of(port);
    if stem.len() < 3 {
        return false;
    }
    let begins = text::matches_at(stem.as_slice(), prefix.as_slice(), 0);
    assert(begins == port@.is_prefix_of(stem@));
    if !begins || stem.len() != 4 {
        return false;
    }
    let c = stem[3];
    assert(stem@.skip(3) =~= seq![c]);
    ('0' <= c && c <= '9') || c == '\u{b9}' || c == '\u{b2}' || c == '\u{b3}'
}

/// Why a device-supplied name can't be a file or folder name on this machine, or `None` if it can.
///
/// A separator or `..` would write outside the destination, and a null byte cuts the path short. Windows
/// also reserves device names, with any extension.
pub fn local_name_problem(name: &str, windows: bool) -> (r: Option<&'static str>)
    ensures
        match r {
            Some(problem) => name_problem(name@, windows) == Some(problem@),
            None => name_problem(name@, windows) is None,
        },
{
    if name.is_empty() {
        return Some("empty");
    }
    if text::same(name, ".") || text::same(name, "..") {
        return Some("`.` and `..` aren't names");
    }
    let chars = text::chars_of(name);
    if find_char(&chars, '/') || find_char(&chars, '\\') {
        return Some("contains a path separator");
    }
    if find_char(&chars, '\u{0}') {
        return Some("contains a null byte");
    }
    if !windows {
        return None;
    }
    if find_forbidden(&chars) {
        return Some("contains a character Windows doesn't allow");
    }
    let last = chars[chars.len() - 1];
    if last == '.' || last == ' ' {
        return Some("ends with a dot or space, which Windows drops");
    }
    let stem = find_stem(&chars);
    let upper = text::uppercase_chars(stem.as_slice());
    proof {
        reveal_strlit("COM");
        reveal_strlit("LPT");
    }
    if text::reads(upper.as_slice(), "CON") || text::reads(upper.as_slice(), "PRN") || text::reads(
        upper.as_slice(),
        "AUX",
    ) || text::reads(upper.as_slice(), "NUL") || names_port(&upper, "COM") || names_port(
        &upper,
        "LPT",
    ) {
        return Some("a reserved device name on Windows");
    }
    None
}

/// A name that passes is one path component: it is not empty, it is neither `.` nor `..`, and it holds no
/// separator and no null byte.
pub proof fn law_usable_names_are_single_components(name: Seq<char>, windows: bool)
    requires
        name_problem(name, windows) is None,
    ensures
        name.len() > 0,
        name != "."@,
        name != ".."@,
        !holds(name, '/'),
        !holds(name, '\\'),
        !holds(name, '\u{0}'),
{
}

/// What cannot be used elsewhere cannot be used on Windows either.
pub proof fn law_windows_refuses_at_least_as_much(name: Seq<char>)
    ensures
        name_problem(name, true) is None ==> name_problem(name, false) is None,
        name_problem(name, false) is Some ==> name_problem(name, true) == name_problem(name, false),
{
}

/// A local path, component by component.
#[derive(Debug)]
pub struct LocalPath {
    pub components: Vec<String>,
}

impl View for LocalPath {
    type V = Seq<Seq<char>>;

    open spec fn view(&self) -> Seq<Seq<char>> {
        text::views(self.components@)
    }
}

impl Clone for LocalPath {
    fn clone(&self) -> (r: Self)
        ensures
            r@ == self@,
    {
        let r = LocalPath { components: self.components.clone() };
        assert(r@ =~= self@);
        r
    }
}

impl LocalPath {
    /// The path of an entry in this folder.
    pub fn join(&self, name: &str) -> (r: Self)
        ensures
            r@ == self@.push(name@),
    {
        let mut r = self.clone();
        text::push_text(&mut r.components, name.to_owned());
        r
    }

    /// The folder this path lies in.
    pub fn parent(&self) -> (r: Self)
        requires
            self@.len() > 0,
        ensures
            r@ == self@.drop_last(),
    {
        let mut components = self.components.clone();
        let _ = components.pop();
        let r = LocalPath { components };
        assert(r@ =~= self@.drop_last());
        r
    }

    /// Whether two paths are the same.
    pub fn same_as(&self, other: &LocalPath) -> (r: bool)
        ensures
            r == (self@ == other@),
    {
        if self.components.len() != other.components.len() {
            assert(self@.len() != other@.len());
            return false;
        }
        let mut i: usize = 0;
        while i < self.components.len()
            invariant
                i <= self.components@.len(),
                self.components@.len() == other.components@.len(),
                forall|j: int| 0 <= j < i ==> self@[j] == other@[j],
            decreases self.components.len() - i,
        {
            if !text::same(self.components[i].as_str(), other.components[i].as_str()) {
                assert(self@[i as int] != other@[i as int]);
                return false;
            }
            assert(self@[i as int] == other@[i as int]);
            i = i + 1;
        }
        assert(self@ =~= other@);
        true
    }
}

/// A planned download: where it comes from, and where it goes.
#[derive(Debug)]
pub struct PlanEntry {
    pub remote_path: String,
    pub local_path: LocalPath,
}

/// Where an entry would land, as the destination tells places apart.
#[derive(Debug)]
pub struct LocalKey {
    pub parent: LocalPath,
    pub name: String,
}

/// A [`LocalKey`] with its parts as views.
pub struct LocalKeyView {
    pub parent: Seq<Seq<char>>,
    pub name: Seq<char>,
}

impl View for LocalKey {
    type V = LocalKeyView;

    open spec fn view(&self) -> LocalKeyView {
        LocalKeyView { parent: self.parent@, name: self.name@ }
    }
}

/// Where a path would land: its folder as it is, and its name without regard to case where the
/// destination has none.
pub open spec fn key_of(path: Seq<Seq<char>>, case_insensitive: bool) -> LocalKeyView {
    if path.len() == 0 {
        LocalKeyView { parent: Seq::empty(), name: Seq::empty() }
    } else {
        LocalKeyView {
            parent: path.drop_last(),
            name: if case_insensitive {
                outside::lowercase(path.last())
            } else {
                path.last()
            },
        }
    }
}

/// The first key that occurred before, and where it did.
pub open spec fn first_repeat(keys: Seq<LocalKeyView>) -> Option<(int, int)>
    decreases keys.len(),
{
    if keys.len() == 0 {
        None
    } else {
        match first_repeat(keys.drop_last()) {
            Some(pair) => Some(pair),
            None => match search::first_where(
                keys.drop_last(),
                |k: LocalKeyView| k == keys.last(),
            ) {
                Some(i) => Some((i, keys.len() - 1)),
                None => None,
            },
        }
    }
}

/// No two entries of a plan without a repeat land in the same place; and where there is a repeat, the two
/// entries it names do.
pub proof fn law_no_repeat_means_no_collision(keys: Seq<LocalKeyView>)
    ensures
        match first_repeat(keys) {
            None => forall|i: int, j: int|
                0 <= i < j < keys.len() ==> #[trigger] keys[i] != #[trigger] keys[j],
            Some((i, j)) => 0 <= i < j < keys.len() && keys[i] == keys[j],
        },
    decreases keys.len(),
{
    if keys.len() > 0 {
        let fewer = keys.drop_last();
        let p = |k: LocalKeyView| k == keys.last();
        law_no_repeat_means_no_collision(fewer);
        search::lemma_first_where(fewer, p);
        if first_repeat(keys) is None {
            assert forall|i: int, j: int| 0 <= i < j < keys.len() implies #[trigger] keys[i]
                != #[trigger] keys[j] by {
                assert(keys[i] == fewer[i]);
                if j < fewer.len() {
                    assert(keys[j] == fewer[j]);
                } else {
                    assert(!p(fewer[i]));
                }
            }
        }
    }
}

/// Keys as views.
pub open spec fn key_views(keys: Seq<LocalKey>) -> Seq<LocalKeyView> {
    keys.map_values(|k: LocalKey| k@)
}

/// Entries as the keys they would land on.
pub open spec fn entry_keys(entries: Seq<PlanEntry>, case_insensitive: bool) -> Seq<LocalKeyView> {
    entries.map_values(|e: PlanEntry| key_of(e.local_path@, case_insensitive))
}

/// The first key that occurred before, and where it did.
pub fn find_repeat(keys: &Vec<LocalKey>) -> (r: Option<(usize, usize)>)
    ensures
        first_repeat(key_views(keys@)) == (match r {
            Some((i, j)) => Some((i as int, j as int)),
            None => None,
        }),
        r matches Some((i, j)) ==> i < j < keys@.len(),
{
    let ghost all = key_views(keys@);
    let mut j: usize = 0;
    assert(all.take(0) =~= Seq::empty());
    while j < keys.len()
        invariant
            j <= keys@.len(),
            all == key_views(keys@),
            first_repeat(all.take(j as int)) is None,
        decreases keys.len() - j,
    {
        let ghost p = |k: LocalKeyView| k == all[j as int];
        proof {
            assert(all.take(j + 1).drop_last() =~= all.take(j as int));
            assert(all.take(j + 1).last() == all[j as int]);
        }
        let mut i: usize = 0;
        while i < j
            invariant
                i <= j < keys@.len(),
                all == key_views(keys@),
                p == (|k: LocalKeyView| k == all[j as int]),
                first_repeat(all.take(j as int)) is None,
                all.take(j + 1).drop_last() == all.take(j as int),
                all.take(j + 1).last() == all[j as int],
                forall|k: int| 0 <= k < i ==> !p(#[trigger] all.take(j as int)[k]),
            decreases j - i,
        {
            if keys[i].parent.same_as(&keys[j].parent) && text::same(
                keys[i].name.as_str(),
                keys[j].name.as_str(),
            ) {
                proof {
                    assert(p(all.take(j as int)[i as int]));
                    search::lemma_first_where_at(all.take(j as int), p, i as int);
                    lemma_repeat_stays(all, j + 1);
                }
                return Some((i, j));
            }
            assert(!p(all.take(j as int)[i as int]));
            i = i + 1;
        }
        proof {
            search::lemma_first_where_none(all.take(j as int), p);
        }
        j = j + 1;
    }
    assert(all.take(j as int) =~= all);
    None
}

/// A repeat among the first keys is the first repeat of all.
proof fn lemma_repeat_stays(keys: Seq<LocalKeyView>, k: int)
    requires
        0 <= k <= keys.len(),
        first_repeat(keys.take(k)) is Some,
    ensures
        first_repeat(keys) == first_repeat(keys.take(k)),
    decreases keys.len() - k,
{
    if k == keys.len() {
        assert(keys.take(k) =~= keys);
    } else {
        assert(keys.take(k + 1).drop_last() =~= keys.take(k));
        lemma_repeat_stays(keys, k + 1);
    }
}

/// The remote paths of the first two entries that would land on the same local path.
pub fn find_collision<'a>(entries: &'a Vec<PlanEntry>, case_insensitive: bool) -> (r: Option<
    (&'a str, &'a str),
>)
    ensures
        match first_repeat(entry_keys(entries@, case_insensitive)) {
            Some((i, j)) => {
                &&& 0 <= i < j < entries@.len()
                &&& r matches Some((first, second))
                &&& first@ == entries@[i].remote_path@
                &&& second@ == entries@[j].remote_path@
            },
            None => r is None,
        },
{
    let mut keys: Vec<LocalKey> = Vec::new();
    let mut i: usize = 0;
    while i < entries.len()
        invariant
            i <= entries@.len(),
            keys@.len() == i,
            forall|k: int|
                0 <= k < i ==> (#[trigger] keys@[k])@ == entry_keys(entries@, case_insensitive)[k],
        decreases entries.len() - i,
    {
        let path = &entries[i].local_path;
        let count: usize = path.components.len();
        let key = if count == 0 {
            let key = LocalKey { parent: LocalPath { components: Vec::new() }, name: String::new() };
            proof {
                reveal_strlit("");
                assert(key.parent@ =~= Seq::empty());
                assert(key.name@ =~= Seq::empty());
            }
            key
        } else {
            let name = path.components[count - 1].clone();
            assert(name@ == path@.last());
            let name = if case_insensitive {
                outside::to_lowercase(name.as_str())
            } else {
                name
            };
            LocalKey { parent: path.parent(), name }
        };
        assert(key@ == key_of(path@, case_insensitive));
        keys.push(key);
        i = i + 1;
    }
    assert(key_views(keys@) =~= entry_keys(entries@, case_insensitive));
    match find_repeat(&keys) {
        Some((first, second)) => Some(
            (entries[first].remote_path.as_str(), entries[second].remote_path.as_str()),
        ),
        None => None,
    }
}

} // verus!
