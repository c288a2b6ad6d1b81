//! Catalog entries: how they are built, how they are ordered for display, and
//! how a stale path is repaired.

use vstd::prelude::*;
use core::cmp::Ordering;
use crate::lazy_image::{opt_path, resolve_step, LazyImage};
use crate::path::{extension_of, file_name_of, stem_of, GamePath, PathModel};

verus! {

/// One playable game of the catalog.
#[derive(Debug, Clone, PartialEq, Eq)]
pub struct Game {
    /// Short name of the game, used to display.
    pub name: String,
    /// Full name of the game (the file stem), used to sort.
    pub full_name: String,
    /// Path to the game file.
    pub path: GamePath,
    /// Box art.
    pub image: LazyImage,
    /// Extension of the game file.
    pub extension: String,
    /// The core to use for this game. If None, the default core is used.
    pub core: Option<String>,
}

/// A game as the game database stores it.
#[derive(Debug, Clone, PartialEq, Eq)]
pub struct GameRecord {
    pub name: String,
    pub path: GamePath,
    pub image: Option<GamePath>,
}

/// The stem of the file name of `p`, or nothing.
pub open spec fn stem_or_empty(p: PathModel) -> Seq<char> {
    match file_name_of(p) {
        Some(name) => stem_of(name),
        None => Seq::empty(),
    }
}

/// The extension of the file name of `p`, or nothing.
pub open spec fn extension_or_empty(p: PathModel) -> Seq<char> {
    match file_name_of(p) {
        Some(name) => match extension_of(name) {
            Some(e) => e,
            None => Seq::empty(),
        },
        None => Seq::empty(),
    }
}

/// Lexical order of two texts, character by character.
pub open spec fn lex_cmp(a: Seq<char>, b: Seq<char>) -> Ordering
    decreases a.len(),
{
    if a.len() == 0 {
        if b.len() == 0 {
            Ordering::Equal
        } else {
            Ordering::Less
        }
    } else if b.len() == 0 {
        Ordering::Greater
    } else if a[0] < b[0] {
        Ordering::Less
    } else if a[0] > b[0] {
        Ordering::Greater
    } else {
        lex_cmp(a.drop_first(), b.drop_first())
    }
}

/// The extension of a disc-image index.
pub open spec fn cue() -> Seq<char> {
    seq!['c', 'u', 'e']
}

/// Display order of two entries given by name and extension: by name, then a
/// `cue` index before any other extension, then by extension (so two `cue`
/// entries of one name are equal).
pub open spec fn entry_order(an: Seq<char>, ae: Seq<char>, bn: Seq<char>, be: Seq<char>) -> Ordering {
    let c = lex_cmp(an, bn);
    if c != Ordering::Equal {
        c
    } else if ae == cue() && be != cue() {
        Ordering::Less
    } else if be == cue() && ae != cue() {
        Ordering::Greater
    } else {
        lex_cmp(ae, be)
    }
}

/// Display order of two games.
pub open spec fn game_order(a: Game, b: Game) -> Ordering {
    entry_order(a.name@, a.extension@, b.name@, b.extension@)
}

/// The opposite order.
pub open spec fn flip(o: Ordering) -> Ordering {
    match o {
        Ordering::Less => Ordering::Greater,
        Ordering::Equal => Ordering::Equal,
        Ordering::Greater => Ordering::Less,
    }
}

/// Compares two texts lexically.
pub fn lex_compare(a: &str, b: &str) -> (r: Ordering)
    ensures
        r == lex_cmp(a@, b@),
{
    let n = a.unicode_len();
    let m = b.unicode_len();
    let mut i: usize = 0;
    assert(a@.subrange(0, n as int) =~= a@);
    assert(b@.subrange(0, m as int) =~= b@);
    while i < n && i < m
        invariant
            i <= n == a@.len(),
            i <= m == b@.len(),
            lex_cmp(a@, b@) == lex_cmp(a@.subrange(i as int, n as int), b@.subrange(i as int, m as int)),
        decreases n - i,
    {
        let x = a.get_char(i);
        let y = b.get_char(i);
        let ghost sa = a@.subrange(i as int, n as int);
        let ghost sb = b@.subrange(i as int, m as int);
        assert(sa[0] == x && sb[0] == y);
        if x < y {
            return Ordering::Less;
        }
        if x > y {
            return Ordering::Greater;
        }
        assert(sa.drop_first() =~= a@.subrange(i + 1, n as int));
        assert(sb.drop_first() =~= b@.subrange(i + 1, m as int));
        i = i + 1;
    }
    if i < m {
        Ordering::Less
    } else if i < n {
        Ordering::Greater
    } else {
        Ordering::Equal
    }
}

fn is_cue(ext: &str) -> (r: bool)
    ensures
        r == (ext@ == cue()),
{
    proof {
        reveal_strlit("cue");
    }
    let r = crate::path::same_text(ext, "cue");
    assert("cue"@ =~= cue());
    r
}

impl Game {
    /// The entry for the game file at `path`, shown as `name` (the launcher's
    /// short form of the file stem).
    pub fn new(path: GamePath, name: String) -> (r: Game)
        ensures
            r.name@ == name@,
            r.full_name@ == stem_or_empty(path@),
            r.path@ == path@,
            r.image@ == crate::lazy_image::ImageModel::Unknown(path@),
            r.extension@ == extension_or_empty(path@),
            r.core is None,
    {
        let full_name = match path.file_stem() {
            Some(s) => s,
            None => String::new(),
        };
        let extension = match path.extension() {
            Some(e) => e,
            None => String::new(),
        };
        let image = LazyImage::Unknown(path.duplicate());
        Game { name, full_name, path, image, extension, core: None }
    }

    /// The entry for a record of the game database: the image is found
    /// already when the record holds one.
    pub fn from_db(game: GameRecord) -> (r: Game)
        ensures
            r.name@ == game.name@,
            r.full_name@ == stem_or_empty(game.path@),
            r.path@ == game.path@,
            r.image@ == (match game.image {
                Some(i) => crate::lazy_image::ImageModel::Found(i@),
                None => crate::lazy_image::ImageModel::Unknown(game.path@),
            }),
            r.extension@ == extension_or_empty(game.path@),
            r.core is None,
    {
        let full_name = match game.path.file_stem() {
            Some(s) => s,
            None => String::new(),
        };
        let image = LazyImage::from_path(&game.path, game.image);
        let extension = match game.path.extension() {
            Some(e) => e,
            None => String::new(),
        };
        Game { name: game.name, full_name, path: game.path, image, extension, core: None }
    }

    /// Answers a request for the box art; see [`LazyImage::image`].
    pub fn image(&mut self, local: Option<GamePath>, scraped: Option<GamePath>) -> (r: Option<GamePath>)
        ensures
            (final(self).image@, opt_path(r)) == resolve_step(old(self).image@, opt_path(local), opt_path(scraped)),
            final(self).name == old(self).name,
            final(self).full_name == old(self).full_name,
            final(self).path == old(self).path,
            final(self).extension == old(self).extension,
            final(self).core == old(self).core,
    {
        self.image.image(local, scraped)
    }

    /// Repairs a stale game path. `exists` tells whether `path` is still on
    /// disk; `found` is the first file met in the games tree with the same
    /// file name, if any. A path that exists, or one with no file name, is
    /// kept. Else a found file with the same name replaces it, and the old
    /// path is returned. The entry's name and extension are not derived anew
    /// from the new path: they keep describing the file as first catalogued.
    pub fn resync(path: &mut GamePath, exists: bool, found: Option<GamePath>) -> (r: Option<GamePath>)
        ensures
            match found {
                Some(g) if !exists && file_name_of(old(path)@) is Some
                    && file_name_of(g@) == file_name_of(old(path)@) => {
                    &&& final(path)@ == g@
                    &&& opt_path(r) == Some(old(path)@)
                },
                _ => {
                    &&& final(path)@ == old(path)@
                    &&& r is None
                },
            },
    {
        if exists {
            return None;
        }
        let name = match path.file_name() {
            Some(n) => n,
            None => return None,
        };
        match found {
            Some(g) => {
                let same = match g.file_name() {
                    Some(gn) => gn == name,
                    None => false,
                };
                if same {
                    let old_path = path.duplicate();
                    *path = g;
                    Some(old_path)
                } else {
                    None
                }
            },
            None => None,
        }
    }

    /// Display order: by name, then a `cue` index first, then by extension.
    pub fn cmp(&self, other: &Game) -> (r: Ordering)
        ensures
            r == game_order(*self, *other),
    {
        let c = lex_compare(self.name.as_str(), other.name.as_str());
        match c {
            Ordering::Equal => {
                let a = is_cue(self.extension.as_str());
                let b = is_cue(other.extension.as_str());
                if a && !b {
                    Ordering::Less
                } else if b && !a {
                    Ordering::Greater
                } else {
                    lex_compare(self.extension.as_str(), other.extension.as_str())
                }
            },
            _ => c,
        }
    }

    /// The display order, as a partial comparison that always answers.
    pub fn partial_cmp(&self, other: &Game) -> (r: Option<Ordering>)
        ensures
            r == Some(game_order(*self, *other)),
    {
        Some(self.cmp(other))
    }
}

/// Whether the games stand in display order.
pub open spec fn sorted_games(s: Seq<Game>) -> bool {
    forall|a: int, b: int| 0 <= a < b < s.len() ==> #[trigger] game_order(s[a], s[b]) != Ordering::Greater
}

/// Sorts the catalog into display order. The games are only rearranged, and a
/// catalog already in display order is left exactly as it is, so sorting the
/// result again changes nothing.
pub fn sort_games(games: &mut Vec<Game>)
    ensures
        sorted_games(final(games)@),
        final(games)@.to_multiset() == old(games)@.to_multiset(),
        sorted_games(old(games)@) ==> final(games)@ == old(games)@,
{
    let n = games.len();
    if n < 2 {
        return;
    }
    let mut i: usize = 1;
    while i < n
        invariant
            1 <= i <= n == games.len(),
            old(games)@.len() == n,
            sorted_games(games@.subrange(0, i as int)),
            games@.subrange(i as int, n as int) == old(games)@.subrange(i as int, n as int),
            games@.to_multiset() == old(games)@.to_multiset(),
            sorted_games(old(games)@) ==> games@ == old(games)@,
        decreases n - i,
    {
        let ghost prev = games@;
        assert(prev[i as int] == prev.subrange(i as int, n as int)[0]);
        let x = games.remove(i);
        let mut j: usize = i;
        let mut moving = true;
        while moving && j > 0
            invariant
                0 <= j <= i < n,
                games@ == prev.remove(i as int),
                x == prev[i as int],
                prev.len() == n,
                sorted_games(prev.subrange(0, i as int)),
                forall|k: int| j <= k < i ==> game_order(#[trigger] games@[k], x) == Ordering::Greater,
                !moving ==> j > 0 && game_order(games@[j - 1], x) != Ordering::Greater,
                sorted_games(old(games)@) && prev == old(games)@ ==> j == i,
            decreases j + if moving { 1int } else { 0int },
        {
            let c = games[j - 1].cmp(&x);
            match c {
                Ordering::Greater => {
                    proof {
                        if sorted_games(old(games)@) && prev == old(games)@ {
                            assert(games@[j - 1] == prev[i - 1]);
                            assert(game_order(prev[i - 1], prev[i as int]) != Ordering::Greater);
                        }
                    }
                    j = j - 1;
                },
                _ => {
                    moving = false;
                },
            }
        }
        let ghost removed = games@;
        games.insert(j, x);
        proof {
            let s = games@;
            assert(forall|k: int| 0 <= k < i ==> removed[k] == prev[k]);
            assert(forall|k: int| 0 <= k < j ==> s[k] == removed[k]);
            assert(forall|k: int| j < k <= i ==> s[k] == removed[k - 1]);
            assert(s[j as int] == x);
            assert forall|a: int, b: int| 0 <= a < b < i + 1 implies #[trigger] game_order(
                s.subrange(0, i + 1)[a],
                s.subrange(0, i + 1)[b],
            ) != Ordering::Greater by {
                let t = s.subrange(0, i + 1);
                assert(t[a] == s[a] && t[b] == s[b]);
                let ps = prev.subrange(0, i as int);
                if b < j {
                    assert(ps[a] == prev[a] && ps[b] == prev[b]);
                } else if a > j {
                    assert(ps[a - 1] == prev[a - 1] && ps[b - 1] == prev[b - 1]);
                } else if a == j {
                    assert(game_order(s[b], x) == Ordering::Greater);
                    lemma_order_total(s[b], x, x);
                } else if b == j {
                    assert(!moving);
                    assert(ps[a] == prev[a] && ps[j - 1] == prev[j - 1]);
                    if a < j - 1 {
                        lemma_order_total(s[a], s[j - 1], x);
                    }
                } else {
                    assert(a < j && j < b);
                    assert(ps[a] == prev[a] && ps[b - 1] == prev[b - 1]);
                }
            }
            assert(s.subrange(i + 1, n as int) =~= prev.subrange(i + 1, n as int));
            assert(s.subrange(i + 1, n as int) =~= old(games)@.subrange(i + 1, n as int)) by {
                assert forall|k: int| i + 1 <= k < n implies s[k] == old(games)@[k] by {
                    assert(prev.subrange(i as int, n as int)[k - i] == old(games)@.subrange(i as int, n as int)[k - i]);
                }
            }
            if sorted_games(old(games)@) && prev == old(games)@ {
                assert(s =~= prev);
            }
            assert(prev.contains(x)) by {
                assert(prev[i as int] == x);
            }
            vstd::seq_lib::to_multiset_contains(prev, x);
            vstd::seq_lib::to_multiset_remove(prev, i as int);
            vstd::seq_lib::to_multiset_insert(removed, j as int, x);
            assert(s.to_multiset() == prev.to_multiset().remove(x).insert(x));
            assert(s.to_multiset() =~= prev.to_multiset()) by {
                broadcast use vstd::multiset::group_multiset_axioms;
            }
        }
        i = i + 1;
    }
    assert(games@.subrange(0, n as int) =~= games@);
}

proof fn lemma_lex_refl(a: Seq<char>)
    ensures
        lex_cmp(a, a) == Ordering::Equal,
    decreases a.len(),
{
    if a.len() > 0 {
        lemma_lex_refl(a.drop_first());
    }
}

proof fn lemma_lex_flip(a: Seq<char>, b: Seq<char>)
    ensures
        lex_cmp(b, a) == flip(lex_cmp(a, b)),
    decreases a.len(),
{
    if a.len() > 0 && b.len() > 0 {
        lemma_lex_flip(a.drop_first(), b.drop_first());
    }
}

proof fn lemma_lex_equal(a: Seq<char>, b: Seq<char>)
    ensures
        lex_cmp(a, b) == Ordering::Equal ==> a == b,
    decreases a.len(),
{
    if a.len() > 0 && b.len() > 0 {
        lemma_lex_equal(a.drop_first(), b.drop_first());
        if lex_cmp(a, b) == Ordering::Equal {
            assert(a[0] == b[0]);
            assert(a =~= seq![a[0]] + a.drop_first());
            assert(b =~= seq![b[0]] + b.drop_first());
        }
    }
}

proof fn lemma_lex_trans(a: Seq<char>, b: Seq<char>, c: Seq<char>)
    ensures
        lex_cmp(a, b) == Ordering::Less && lex_cmp(b, c) == Ordering::Less ==> lex_cmp(a, c) == Ordering::Less,
    decreases a.len(),
{
    if a.len() > 0 && b.len() > 0 && c.len() > 0 {
        lemma_lex_trans(a.drop_first(), b.drop_first(), c.drop_first());
    }
}

/// Of two games with the same name, the one whose extension is `cue` comes
/// first, whatever the other's extension.
pub proof fn lemma_cue_first(a: Game, b: Game)
    requires
        a.name@ == b.name@,
        a.extension@ == cue(),
        b.extension@ != cue(),
    ensures
        game_order(a, b) == Ordering::Less,
        game_order(b, a) == Ordering::Greater,
{
    lemma_lex_refl(a.name@);
}

/// The display order is a total order: every game is equal to itself,
/// swapping the two sides flips the answer, only games with the same name
/// and extension compare equal, and "before" and "not after" are transitive.
pub proof fn lemma_order_total(a: Game, b: Game, c: Game)
    ensures
        game_order(a, a) == Ordering::Equal,
        game_order(b, a) == flip(game_order(a, b)),
        game_order(a, b) == Ordering::Equal ==> a.name@ == b.name@ && a.extension@ == b.extension@,
        game_order(a, b) == Ordering::Less && game_order(b, c) == Ordering::Less ==> game_order(a, c)
            == Ordering::Less,
        game_order(a, b) != Ordering::Greater && game_order(b, c) != Ordering::Greater ==> game_order(a, c)
            != Ordering::Greater,
{
    lemma_lex_refl(a.name@);
    lemma_lex_refl(a.extension@);
    lemma_lex_flip(a.name@, b.name@);
    lemma_lex_flip(a.extension@, b.extension@);
    lemma_lex_equal(a.name@, b.name@);
    lemma_lex_equal(b.name@, c.name@);
    lemma_lex_equal(a.extension@, b.extension@);
    lemma_lex_equal(b.extension@, c.extension@);
    lemma_lex_trans(a.name@, b.name@, c.name@);
    lemma_lex_trans(a.extension@, b.extension@, c.extension@);
}

} // verus!
