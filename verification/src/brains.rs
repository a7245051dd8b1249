use vstd::prelude::*;

use crate::text::same_text;

verus! {

broadcast use vstd::string::group_string_axioms;

/// A "brain": the QAT GGUF build of a text model plus the mmproj vision
/// projector that lets it see the screenshots it is handed, both downloaded
/// from one HuggingFace repository on demand.
#[derive(Clone, Copy, Debug)]
pub struct Brain {
    pub id: &'static str,
    pub label: &'static str,
    pub blurb: &'static str,
    pub repo: &'static str,
    pub main_file: &'static str,
    pub mmproj_file: &'static str,
    pub main_size_bytes: u64,
    pub mmproj_size_bytes: u64,
}

/// The only brain, auto-loaded on startup.
pub const ACTIVE: &'static str = "gemma-4-e2b";

/// The one brain of the catalog.
pub open spec fn gemma_e2b() -> Brain {
    Brain {
        id: "gemma-4-e2b",
        label: "Gemma 4 E2B QAT",
        blurb: "A small, sharp Gemma 4 with vision. Downloads the QAT text model plus its mmproj projector on first run.",
        repo: "google/gemma-4-E2B-it-qat-q4_0-gguf",
        main_file: "gemma-4-E2B_q4_0-it.gguf",
        mmproj_file: "gemma-4-E2B-it-mmproj.gguf",
        main_size_bytes: 3_350_000_000,
        mmproj_size_bytes: 1_280_000_000,
    }
}

/// The brain catalog.
pub open spec fn catalog_spec() -> Seq<Brain> {
    seq![gemma_e2b()]
}

/// The first brain of `cat` whose id is `id`.
pub open spec fn find_in(cat: Seq<Brain>, id: Seq<char>) -> Option<Brain>
    decreases cat.len(),
{
    if cat.len() == 0 {
        None
    } else if cat[0].id@ == id {
        Some(cat[0])
    } else {
        find_in(cat.drop_first(), id)
    }
}

/// The brain catalog. Edit it to change which model is used.
pub fn catalog() -> (r: Vec<Brain>)
    ensures
        r@ == catalog_spec(),
{
    let b = Brain {
        id: "gemma-4-e2b",
        label: "Gemma 4 E2B QAT",
        blurb: "A small, sharp Gemma 4 with vision. Downloads the QAT text model plus its mmproj projector on first run.",
        repo: "google/gemma-4-E2B-it-qat-q4_0-gguf",
        main_file: "gemma-4-E2B_q4_0-it.gguf",
        mmproj_file: "gemma-4-E2B-it-mmproj.gguf",
        main_size_bytes: 3_350_000_000,
        mmproj_size_bytes: 1_280_000_000,
    };
    let r = vec![b];
    assert(r@ =~= catalog_spec());
    r
}

/// The catalog's brain with the given id, if there is one.
pub fn find(id: &str) -> (r: Option<Brain>)
    ensures
        r == find_in(catalog_spec(), id@),
{
    let cat = catalog();
    let mut i: usize = 0;
    assert(cat@.skip(0) =~= cat@);
    while i < cat.len()
        invariant
            i <= cat.len(),
            cat@ == catalog_spec(),
            find_in(cat@.skip(i as int), id@) == find_in(catalog_spec(), id@),
        decreases cat.len() - i,
    {
        assert(cat@.skip(i as int)[0] == cat@[i as int]);
        assert(cat@.skip(i as int).drop_first() =~= cat@.skip(i + 1));
        if same_text(cat[i].id, id) {
            return Some(cat[i]);
        }
        i += 1;
    }
    None
}

/// The brain that is loaded on startup.
pub fn active() -> (r: Brain)
    ensures
        r == gemma_e2b(),
        r.id@ == ACTIVE@,
{
    assert(find_in(catalog_spec(), ACTIVE@) == Some(gemma_e2b()));
    match find(ACTIVE) {
        Some(b) => b,
        None => {
            proof {
                assert(false);
            }
            catalog()[0]
        },
    }
}

// ---------------------------------------------------------------------------
// Paths and URLs
// ---------------------------------------------------------------------------

/// Joining a path component onto a path, as `PathBuf::push` does on Unix: an
/// absolute component replaces the path; otherwise a `/` separates the two
/// unless the path is empty or already ends in one.
pub open spec fn path_join(base: Seq<char>, part: Seq<char>) -> Seq<char> {
    if part.len() > 0 && part[0] == '/' {
        part
    } else if base.len() == 0 || base.last() == '/' {
        base + part
    } else {
        base + seq!['/'] + part
    }
}

/// `base` joined with `part` (see `path_join`).
pub fn join_path(base: &str, part: &str) -> (r: String)
    ensures
        r@ == path_join(base@, part@),
{
    let b = crate::text::chars_of(base);
    let p = crate::text::chars_of(part);
    if p.len() > 0 && p[0] == '/' {
        return String::from_str(part);
    }
    let mut out = String::from_str(base);
    if !(b.len() == 0 || b[b.len() - 1] == '/') {
        out.append("/");
        proof {
            reveal_strlit("/");
        }
    }
    out.append(part);
    out
}

/// Where downloaded brains are cached, for the given home directory (the
/// working directory when there is none).
pub open spec fn cache_dir_spec(home: Option<Seq<char>>) -> Seq<char> {
    let base = match home {
        Some(h) => h,
        None => "."@,
    };
    path_join(path_join(base, ".project-commentator"@), "brains"@)
}

/// Where downloaded brains are cached (persists across runs), given the
/// user's home directory.
pub fn cache_dir(home: Option<String>) -> (r: String)
    ensures
        r@ == cache_dir_spec(home.deep_view()),
{
    let base = match home {
        Some(h) => h,
        None => String::from_str("."),
    };
    let dir = join_path(base.as_str(), ".project-commentator");
    join_path(dir.as_str(), "brains")
}

impl Brain {
    /// Where the text model is kept, under the cache directory `dir`.
    pub fn main_path(&self, dir: &str) -> (r: String)
        ensures
            r@ == path_join(dir@, self.main_file@),
    {
        join_path(dir, self.main_file)
    }

    /// Where the vision projector is kept, under the cache directory `dir`.
    pub fn mmproj_path(&self, dir: &str) -> (r: String)
        ensures
            r@ == path_join(dir@, self.mmproj_file@),
    {
        join_path(dir, self.mmproj_file)
    }

    /// Both files must be present before we can load.
    pub fn is_downloaded(&self, main_present: bool, mmproj_present: bool) -> (r: bool)
        ensures
            r == (main_present && mmproj_present),
    {
        main_present && mmproj_present
    }

    /// The files still to fetch, with their expected sizes: the text model
    /// first, then the projector, each only when it is not yet present.
    pub fn pending_downloads(&self, main_present: bool, mmproj_present: bool) -> (r: Vec<
        (&'static str, u64),
    >)
        ensures
            r@ == (if main_present {
                Seq::<(&'static str, u64)>::empty()
            } else {
                seq![(self.main_file, self.main_size_bytes)]
            }) + (if mmproj_present {
                Seq::<(&'static str, u64)>::empty()
            } else {
                seq![(self.mmproj_file, self.mmproj_size_bytes)]
            }),
    {
        let mut r: Vec<(&'static str, u64)> = Vec::new();
        if !main_present {
            r.push((self.main_file, self.main_size_bytes));
        }
        if !mmproj_present {
            r.push((self.mmproj_file, self.mmproj_size_bytes));
        }
        proof {
            assert(r@ =~= (if main_present {
                Seq::<(&'static str, u64)>::empty()
            } else {
                seq![(self.main_file, self.main_size_bytes)]
            }) + (if mmproj_present {
                Seq::<(&'static str, u64)>::empty()
            } else {
                seq![(self.mmproj_file, self.mmproj_size_bytes)]
            }));
        }
        r
    }

    /// The download URL of one of the brain's files.
    pub fn resolve_url(&self, file: &str) -> (r: String)
        ensures
            r@ == "https://huggingface.co/"@ + self.repo@ + "/resolve/main/"@ + file@,
    {
        let mut out = String::from_str("https://huggingface.co/");
        out.append(self.repo);
        out.append("/resolve/main/");
        out.append(file);
        out
    }
}

// ---------------------------------------------------------------------------
// Laws
// ---------------------------------------------------------------------------

/// A brain found by id carries that id, and it is one of the catalog's.
pub proof fn law_found_brain_has_id(cat: Seq<Brain>, id: Seq<char>)
    ensures
        find_in(cat, id) matches Some(b) ==> b.id@ == id && cat.contains(b),
    decreases cat.len(),
{
    if cat.len() > 0 && cat[0].id@ != id {
        law_found_brain_has_id(cat.drop_first(), id);
        if let Some(b) = find_in(cat.drop_first(), id) {
            let k = choose|k: int| 0 <= k < cat.drop_first().len() && cat.drop_first()[k] == b;
            assert(cat[k + 1] == b);
        }
    } else if cat.len() > 0 {
        assert(cat[0] == cat[0]);
    }
}

/// Brains are cached in `.project-commentator/brains` under the home
/// directory (the README's `~/.project-commentator/brains/`).
pub proof fn law_cache_dir_under_home(home: Seq<char>)
    requires
        home.len() > 0,
        home.last() != '/',
    ensures
        cache_dir_spec(Some(home)) == home + "/.project-commentator/brains"@,
{
    reveal_strlit(".project-commentator");
    reveal_strlit("brains");
    reveal_strlit("/.project-commentator/brains");
    let d = path_join(home, ".project-commentator"@);
    assert(d == home + seq!['/'] + ".project-commentator"@);
    assert(d.last() == 'r');
    assert(path_join(d, "brains"@) =~= home + "/.project-commentator/brains"@);
}

} // verus!
