//! Box art that is looked up once, on demand, and then kept.
//!
//! The lookup probes the filesystem and the network; those probes are made by
//! the caller. This module decides what to probe, in which order, which answer
//! wins, and how the cached state moves on.

use vstd::prelude::*;
use crate::path::{
    child_of, extension_of, file_name_of, prefix_of, rebase, same_text, set_extension_of, GamePath,
    PathModel,
};

verus! {

/// The box art of one catalog entry.
#[derive(Debug, Clone, PartialEq, Eq)]
pub enum LazyImage {
    /// No lookup yet; holds the path of the game file.
    Unknown(GamePath),
    /// The lookup found this image.
    Found(GamePath),
    /// The lookup found nothing.
    NotFound,
}

/// The mathematical value of a [`LazyImage`].
pub enum ImageModel {
    Unknown(PathModel),
    Found(PathModel),
    NotFound,
}

impl View for LazyImage {
    type V = ImageModel;

    open spec fn view(&self) -> ImageModel {
        match self {
            LazyImage::Unknown(p) => ImageModel::Unknown(p@),
            LazyImage::Found(p) => ImageModel::Found(p@),
            LazyImage::NotFound => ImageModel::NotFound,
        }
    }
}

/// The value of an optional path.
pub open spec fn opt_path(o: Option<GamePath>) -> Option<PathModel> {
    match o {
        Some(p) => Some(p@),
        None => None,
    }
}

/// The value of an optional borrowed path.
pub open spec fn opt_path_ref(o: Option<&GamePath>) -> Option<PathModel> {
    match o {
        Some(p) => Some(p@),
        None => None,
    }
}

/// The extensions that box art may have, in the order they are tried.
pub open spec fn image_exts() -> Seq<Seq<char>> {
    seq![seq!['p', 'n', 'g'], seq!['j', 'p', 'g'], seq!['j', 'p', 'e', 'g'], seq!['g', 'i', 'f']]
}

/// Whether the game file is itself an image.
pub open spec fn is_image_file(p: PathModel) -> bool {
    match file_name_of(p) {
        Some(name) => match extension_of(name) {
            Some(e) => image_exts().contains(e),
            None => false,
        },
        None => false,
    }
}

/// The result of a lookup: the first image beside the game, else the game
/// file itself when it is an image, else what the scrape brought.
pub open spec fn lookup_outcome(
    orig: PathModel,
    local: Option<PathModel>,
    scraped: Option<PathModel>,
) -> Option<PathModel> {
    if local is Some {
        local
    } else if is_image_file(orig) {
        Some(orig)
    } else {
        scraped
    }
}

/// The state after a request for the image, and what the request returns.
/// A state that was looked up before keeps its answer whatever the probes say.
pub open spec fn resolve_step(
    s: ImageModel,
    local: Option<PathModel>,
    scraped: Option<PathModel>,
) -> (ImageModel, Option<PathModel>) {
    match s {
        ImageModel::Found(p) => (s, Some(p)),
        ImageModel::NotFound => (s, None),
        ImageModel::Unknown(orig) => match lookup_outcome(orig, local, scraped) {
            Some(x) => (ImageModel::Found(x), Some(x)),
            None => (ImageModel::NotFound, None),
        },
    }
}

/// What is cached: the image only once it was found.
pub open spec fn cached_image(s: ImageModel) -> Option<PathModel> {
    match s {
        ImageModel::Found(p) => Some(p),
        _ => None,
    }
}

/// The `i`-th extension that box art may have.
pub fn image_extension(i: usize) -> (r: &'static str)
    requires
        i < 4,
    ensures
        r@ == image_exts()[i as int],
{
    proof {
        reveal_strlit("png");
        reveal_strlit("jpg");
        reveal_strlit("jpeg");
        reveal_strlit("gif");
    }
    if i == 0 {
        "png"
    } else if i == 1 {
        "jpg"
    } else if i == 2 {
        "jpeg"
    } else {
        "gif"
    }
}

/// Whether `ext` is one of the extensions that box art may have.
pub fn is_image_extension(ext: &str) -> (r: bool)
    ensures
        r == image_exts().contains(ext@),
{
    let mut i: usize = 0;
    while i < 4
        invariant
            i <= 4,
            image_exts().len() == 4,
            forall|j: int| 0 <= j < i ==> image_exts()[j] != ext@,
        decreases 4 - i,
    {
        if same_text(image_extension(i), ext) {
            return true;
        }
        i = i + 1;
    }
    false
}

/// Whether the game file at `p` is itself an image.
pub fn is_image_path(p: &GamePath) -> (r: bool)
    ensures
        r == is_image_file(p@),
{
    match p.extension() {
        Some(e) => is_image_extension(e.as_str()),
        None => false,
    }
}

/// The name of the directory that holds box art beside the games.
pub open spec fn imgs_name() -> Seq<char> {
    seq!['I', 'm', 'g', 's']
}

/// The box-art directory of the ancestor of `p` made of its first `k` components.
pub open spec fn imgs_dir_of(p: PathModel, k: int) -> PathModel {
    child_of(prefix_of(p, k), imgs_name())
}

/// The `i`-th file tried in the box-art directory of the ancestor with `k`
/// components: first the game's own name with each image extension, then its
/// path below that ancestor with each image extension.
pub open spec fn candidate_of(p: PathModel, k: int, i: int) -> PathModel {
    if i < 4 {
        set_extension_of(child_of(imgs_dir_of(p, k), p.parts.last()), image_exts()[i])
    } else {
        set_extension_of(rebase(imgs_dir_of(p, k), p, k), image_exts()[i - 4])
    }
}

/// How many ancestors of `p` are searched, starting from the one with `k`
/// components and going up: the walk ends after the games root, or after the
/// ancestor with no components.
pub open spec fn walk_len(p: PathModel, root: PathModel, k: int) -> int
    decreases k + 1,
{
    if k < 0 {
        0
    } else if prefix_of(p, k) == root {
        1
    } else {
        1 + walk_len(p, root, k - 1)
    }
}

/// The ancestors searched for the game at `p`, nearest first.
pub open spec fn plan_len(p: PathModel, root: PathModel) -> int {
    walk_len(p, root, p.parts.len() - 1)
}

/// The number of components of the `i`-th ancestor searched.
pub open spec fn level_depth(p: PathModel, i: int) -> int {
    p.parts.len() - 1 - i
}

/// The last ancestor searched: where the scrape configuration is looked up.
pub open spec fn last_searched_of(p: PathModel, root: PathModel) -> PathModel {
    prefix_of(p, p.parts.len() - plan_len(p, root))
}

proof fn lemma_walk_len_bounds(p: PathModel, root: PathModel, k: int)
    requires
        k >= -1,
    ensures
        0 <= walk_len(p, root, k) <= k + 1,
        k >= 0 ==> walk_len(p, root, k) >= 1,
    decreases k + 1,
{
    if k >= 0 {
        lemma_walk_len_bounds(p, root, k - 1);
    }
}

/// One ancestor to search: its box-art directory and the files to try there, in order.
#[derive(Debug, Clone, PartialEq, Eq)]
pub struct SearchLevel {
    pub imgs_dir: GamePath,
    pub candidates: Vec<GamePath>,
}

/// Whether `l` is the search of the ancestor of `p` with `k` components.
pub open spec fn level_matches(l: SearchLevel, p: PathModel, k: int) -> bool {
    &&& l.imgs_dir@ == imgs_dir_of(p, k)
    &&& l.candidates.len() == 8
    &&& forall|i: int| 0 <= i < 8 ==> #[trigger] l.candidates@[i]@ == candidate_of(p, k, i)
}

/// Whether `plan` is the search for the game at `p` below `root`.
pub open spec fn plan_matches(plan: Seq<SearchLevel>, p: PathModel, root: PathModel) -> bool {
    &&& plan.len() == plan_len(p, root)
    &&& forall|i: int| 0 <= i < plan.len() ==> level_matches(#[trigger] plan[i], p, level_depth(p, i))
}

fn imgs_component() -> (r: String)
    ensures
        r@ == imgs_name(),
{
    proof {
        reveal_strlit("Imgs");
    }
    String::from_str("Imgs")
}

/// The search of the ancestor of `p` with `k` components.
pub fn search_level(p: &GamePath, k: usize) -> (r: SearchLevel)
    requires
        k < p.parts.len(),
    ensures
        level_matches(r, p@, k as int),
{
    let n = p.parts.len();
    let mut imgs_dir = p.prefix(k);
    imgs_dir.push(imgs_component());
    let mut candidates: Vec<GamePath> = Vec::new();
    let mut i: usize = 0;
    while i < 8
        invariant
            i <= 8,
            n == p.parts.len(),
            k < n,
            imgs_dir@ == imgs_dir_of(p@, k as int),
            candidates.len() == i,
            forall|j: int| 0 <= j < i ==> #[trigger] candidates@[j]@ == candidate_of(p@, k as int, j),
        decreases 8 - i,
    {
        let mut c = imgs_dir.duplicate();
        if i < 4 {
            c.push(p.parts[n - 1].clone());
            c.set_extension(image_extension(i));
        } else {
            c.extend_from(p, k);
            c.set_extension(image_extension(i - 4));
        }
        candidates.push(c);
        i = i + 1;
    }
    SearchLevel { imgs_dir, candidates }
}

/// The ancestors of the game at `path` to search for box art, nearest first,
/// up to and including `root`.
pub fn search_plan(path: &GamePath, root: &GamePath) -> (r: Vec<SearchLevel>)
    ensures
        plan_matches(r@, path@, root@),
{
    let n = path.parts.len();
    let mut plan: Vec<SearchLevel> = Vec::new();
    let mut k: usize = n;
    while k > 0
        invariant
            k <= n == path.parts.len(),
            plan.len() == n - k,
            plan_len(path@, root@) == (n - k) + walk_len(path@, root@, k - 1),
            forall|i: int| 0 <= i < plan.len() ==> level_matches(#[trigger] plan@[i], path@, level_depth(path@, i)),
        decreases k,
    {
        plan.push(search_level(path, k - 1));
        let parent = path.prefix(k - 1);
        if parent.same_as(root) {
            return plan;
        }
        k = k - 1;
    }
    plan
}

/// Whether the `j`-th file of the `i`-th level was found: its directory and
/// the file itself exist.
pub open spec fn is_hit(
    plan: Seq<SearchLevel>,
    dir_exists: Seq<bool>,
    file_exists: Seq<Vec<bool>>,
    i: int,
    j: int,
) -> bool {
    &&& 0 <= i < plan.len()
    &&& i < dir_exists.len()
    &&& i < file_exists.len()
    &&& dir_exists[i]
    &&& 0 <= j < plan[i].candidates.len()
    &&& j < file_exists[i].len()
    &&& file_exists[i]@[j]
}

/// The first file of the search that exists. `dir_exists[i]` tells whether the
/// box-art directory of level `i` exists, `file_exists[i][j]` whether its
/// `j`-th file does; an answer that is missing counts as "no".
pub fn first_existing(
    plan: &Vec<SearchLevel>,
    dir_exists: &Vec<bool>,
    file_exists: &Vec<Vec<bool>>,
) -> (r: Option<GamePath>)
    ensures
        match r {
            Some(c) => exists|i: int, j: int|
                {
                    &&& is_hit(plan@, dir_exists@, file_exists@, i, j)
                    &&& c@ == plan@[i].candidates@[j]@
                    &&& forall|i2: int, j2: int|
                        is_hit(plan@, dir_exists@, file_exists@, i2, j2) ==> i < i2 || (i == i2 && j <= j2)
                },
            None => forall|i: int, j: int| !is_hit(plan@, dir_exists@, file_exists@, i, j),
        },
{
    let mut i: usize = 0;
    while i < plan.len()
        invariant
            i <= plan.len(),
            forall|i2: int, j2: int| 0 <= i2 < i ==> !is_hit(plan@, dir_exists@, file_exists@, i2, j2),
        decreases plan.len() - i,
    {
        if i < dir_exists.len() && i < file_exists.len() && dir_exists[i] {
            let level = &plan[i];
            let found = &file_exists[i];
            let mut j: usize = 0;
            while j < level.candidates.len()
                invariant
                    i < plan.len(),
                    i < dir_exists.len(),
                    i < file_exists.len(),
                    dir_exists@[i as int],
                    *level == plan@[i as int],
                    *found == file_exists@[i as int],
                    j <= level.candidates.len(),
                    forall|i2: int, j2: int| 0 <= i2 < i ==> !is_hit(plan@, dir_exists@, file_exists@, i2, j2),
                    forall|j2: int| 0 <= j2 < j ==> !is_hit(plan@, dir_exists@, file_exists@, i as int, j2),
                decreases level.candidates.len() - j,
            {
                if j < found.len() && found[j] {
                    let c = level.candidates[j].duplicate();
                    assert(is_hit(plan@, dir_exists@, file_exists@, i as int, j as int));
                    return Some(c);
                }
                j = j + 1;
            }
        }
        i = i + 1;
    }
    None
}

/// The name of the scrape configuration file.
pub open spec fn config_name() -> Seq<char> {
    seq!['s', 'c', 'r', 'a', 'p', 'e', 'r', '_', 'c', 'o', 'n', 'f', 'i', 'g', '.', 'j', 's', 'o', 'n']
}

/// How many ancestors of the game at `path` are searched for box art.
pub fn search_depth(path: &GamePath, root: &GamePath) -> (r: usize)
    ensures
        r == plan_len(path@, root@),
{
    let n = path.parts.len();
    let mut k: usize = n;
    while k > 0
        invariant
            k <= n == path.parts.len(),
            plan_len(path@, root@) == (n - k) + walk_len(path@, root@, k - 1),
        decreases k,
    {
        let parent = path.prefix(k - 1);
        if parent.same_as(root) {
            return n - k + 1;
        }
        k = k - 1;
    }
    n
}

/// Where the scrape configuration for the game at `path` is looked up: in the
/// last ancestor that the search for box art reached.
pub fn scrape_config_path(path: &GamePath, root: &GamePath) -> (r: GamePath)
    ensures
        r@ == child_of(last_searched_of(path@, root@), config_name()),
{
    let depth = search_depth(path, root);
    proof {
        lemma_walk_len_bounds(path@, root@, path@.parts.len() - 1);
        reveal_strlit("scraper_config.json");
    }
    let mut r = path.prefix(path.parts.len() - depth);
    let name = String::from_str("scraper_config.json");
    assert(name@ =~= config_name());
    r.push(name);
    r
}

impl LazyImage {
    /// Answers a request for the image. A state that was looked up before
    /// returns its answer and stays as it is. An unknown state takes `local`
    /// (the first image found beside the game) if there is one, else the game
    /// file itself when it is an image, else `scraped` (what the web scrape
    /// brought), and becomes found, or not found when all three are missing.
    pub fn image(&mut self, local: Option<GamePath>, scraped: Option<GamePath>) -> (r: Option<GamePath>)
        ensures
            (final(self)@, opt_path(r)) == resolve_step(old(self)@, opt_path(local), opt_path(scraped)),
    {
        let outcome = match self {
            LazyImage::Found(p) => return Some(p.duplicate()),
            LazyImage::NotFound => return None,
            LazyImage::Unknown(orig) => {
                if local.is_some() {
                    local
                } else if is_image_path(orig) {
                    Some(orig.duplicate())
                } else {
                    scraped
                }
            },
        };
        match outcome {
            Some(p) => {
                let r = p.duplicate();
                *self = LazyImage::Found(p);
                Some(r)
            },
            None => {
                *self = LazyImage::NotFound;
                None
            },
        }
    }

    /// The path of the game file while the image is still to be looked up.
    pub fn pending(&self) -> (r: Option<&GamePath>)
        ensures
            opt_path_ref(r) == (match self@ {
                ImageModel::Unknown(p) => Some(p),
                _ => None,
            }),
    {
        match self {
            LazyImage::Unknown(p) => Some(p),
            _ => None,
        }
    }

    /// Whether a request for the image, with `local` as the outcome of the
    /// search beside the game, needs the web scrape.
    pub fn needs_scrape(&self, local: &Option<GamePath>) -> (r: bool)
        ensures
            r == (match self@ {
                ImageModel::Unknown(orig) => local is None && !is_image_file(orig),
                _ => false,
            }),
    {
        match self {
            LazyImage::Unknown(orig) => local.is_none() && !is_image_path(orig),
            _ => false,
        }
    }

    /// The image of a game at `path`: found already when `image` is given,
    /// else still to be looked up.
    pub fn from_path(path: &GamePath, image: Option<GamePath>) -> (r: LazyImage)
        ensures
            r@ == (match image {
                Some(i) => ImageModel::Found(i@),
                None => ImageModel::Unknown(path@),
            }),
    {
        match image {
            Some(image) => LazyImage::Found(image),
            None => LazyImage::Unknown(path.duplicate()),
        }
    }

    /// The image, only when a lookup has already found it. Never probes.
    pub fn try_image(&self) -> (r: Option<&GamePath>)
        ensures
            opt_path_ref(r) == cached_image(self@),
    {
        match self {
            LazyImage::Found(p) => Some(p),
            _ => None,
        }
    }
}

/// Once a request has been answered, every later request returns the same
/// answer and leaves the state as it is, whatever the probes would now say.
pub proof fn lemma_resolve_idempotent(
    s: ImageModel,
    local: Option<PathModel>,
    scraped: Option<PathModel>,
    local2: Option<PathModel>,
    scraped2: Option<PathModel>,
)
    ensures
        resolve_step(resolve_step(s, local, scraped).0, local2, scraped2) == resolve_step(s, local, scraped),
        !(resolve_step(s, local, scraped).0 is Unknown),
{
}

/// Before the first request nothing is cached, and after any request the
/// cache holds exactly what the request returned.
pub proof fn lemma_try_image_only_after_resolve(
    s: ImageModel,
    local: Option<PathModel>,
    scraped: Option<PathModel>,
)
    ensures
        s is Unknown ==> cached_image(s) is None,
        cached_image(resolve_step(s, local, scraped).0) == resolve_step(s, local, scraped).1,
{
}

} // verus!
