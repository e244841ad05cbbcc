//! The landing page of the workspace docs: the rustdoc asset files it links
//! to, found by name pattern, and the page itself.

use vstd::prelude::*;
use crate::collection::{insert_sorted_unique, strictly_sorted, strings_view};
use crate::text::{ends_with, ends_with_str, push_str, starts_with, starts_with_str, string_chars, string_from_chars};

verus! {

/// Part 0 of the index page template.
pub const INDEX_PART_0: &'static str = "<!DOCTYPE html>\n<html lang=\"en\">\n<head>\n    <meta charset=\"utf-8\">\n    <meta name=\"viewport\" content=\"width=device-width, initial-scale=1.0\">\n    <title>gig-log - Rust</title>\n    <link rel=\"stylesheet\" href=\"static.files/";

/// Part 1 of the index page template.
pub const INDEX_PART_1: &'static str = "\">\n    <link rel=\"stylesheet\" href=\"static.files/";

/// Part 2 of the index page template.
pub const INDEX_PART_2: &'static str = "\">\n    <meta name=\"rustdoc-vars\"\n        data-root-path=\"./\"\n        data-static-root-path=\"static.files/\"\n        data-current-crate=\"gig_log\"\n        data-themes=\"\"\n        data-resource-suffix=\"\"\n        data-rustdoc-version=\"1.92.0\"\n        data-channel=\"1.92.0\"\n        data-search-js=\"";

/// Part 3 of the index page template.
pub const INDEX_PART_3: &'static str = "\"\n        data-stringdex-js=\"";

/// Part 4 of the index page template.
pub const INDEX_PART_4: &'static str = "\"\n        >\n    <script src=\"static.files/";

/// Part 5 of the index page template.
pub const INDEX_PART_5: &'static str = "\"></script>\n    <script defer src=\"static.files/";

/// Part 6 of the index page template.
pub const INDEX_PART_6: &'static str = "\"></script>\n    <noscript><link rel=\"stylesheet\" href=\"static.files/";

/// Part 7 of the index page template.
pub const INDEX_PART_7: &'static str = "\"></noscript>\n    <link rel=\"alternate icon\" type=\"image/png\" href=\"static.files/";

/// Part 8 of the index page template.
pub const INDEX_PART_8: &'static str = "\">\n    <link rel=\"icon\" type=\"image/svg+xml\" href=\"static.files/";

/// Part 9 of the index page template.
pub const INDEX_PART_9: &'static str = "\">\n</head>\n<body class=\"rustdoc mod crate\">\n    <nav class=\"sidebar\">\n        <div class=\"sidebar-crate\">\n            <h2><a href=\"#\">gig-log</a></h2>\n        </div>\n        <div class=\"sidebar-elems\">\n            <section id=\"rustdoc-toc\">\n                <h3><a href=\"#crates\">Workspace Crates</a></h3>\n                <ul class=\"block\">\n                    <li><a href=\"#crates\" title=\"Crates\">Crates</a></li>\n                </ul>\n            </section>\n        </div>\n    </nav>\n    <div class=\"sidebar-resizer\" title=\"Drag to resize sidebar\"></div>\n    <main>\n        <div class=\"width-limiter\">\n            <section id=\"main-content\" class=\"content\">\n                <div class=\"main-heading\">\n                    <h1>Crate <span>gig-log</span></h1>\n                    <rustdoc-toolbar></rustdoc-toolbar>\n                </div>\n                <p>Documentation for the gig-log workspace.</p>\n                <h2 id=\"crates\" class=\"section-header\">\n                    Crates<a href=\"#crates\" class=\"anchor\">§</a>\n                </h2>\n                <dl class=\"item-table\">\n                    <dt><a class=\"mod\" href=\"gig_log_api/index.html\">gig_log_api</a></dt>\n                    <dd>The backend REST API server.</dd>\n                    <dt><a class=\"mod\" href=\"gig_log_common/index.html\">gig_log_common</a></dt>\n                    <dd>Shared types and utilities.</dd>\n                    <dt><a class=\"mod\" href=\"gig_log_dev_tools/index.html\">gig_log_dev_tools</a></dt>\n                    <dd>Developer tooling for docs and workspace workflows.</dd>\n                    <dt><a class=\"mod\" href=\"gig_log_frontend/index.html\">gig_log_frontend</a></dt>\n                    <dd>The Leptos frontend application.</dd>\n                </dl>\n            </section>\n        </div>\n    </main>\n</body>\n</html>\n";

/// The hashed rustdoc asset files the landing page links to.
pub struct RustdocAssets {
    pub normalize_css: String,
    pub rustdoc_css: String,
    pub main_js: String,
    pub search_js: String,
    pub stringdex_js: String,
    pub storage_js: String,
    pub favicon_svg: String,
    pub favicon_png: String,
    pub noscript_css: String,
}

/// The landing page linking the given assets.
pub open spec fn index_html(a: RustdocAssets) -> Seq<char> {
    INDEX_PART_0@ + a.normalize_css@ + INDEX_PART_1@ + a.rustdoc_css@ + INDEX_PART_2@ + a.search_js@ + INDEX_PART_3@ + a.stringdex_js@ + INDEX_PART_4@ + a.storage_js@ + INDEX_PART_5@ + a.main_js@ + INDEX_PART_6@ + a.noscript_css@ + INDEX_PART_7@ + a.favicon_png@ + INDEX_PART_8@ + a.favicon_svg@ + INDEX_PART_9@
}

/// Renders the landing page.
pub fn render_html(assets: &RustdocAssets) -> (r: String)
    ensures
        r@ == index_html(*assets),
{
    let mut out: Vec<char> = Vec::new();
    push_str(&mut out, INDEX_PART_0);
    push_str(&mut out, assets.normalize_css.as_str());
    push_str(&mut out, INDEX_PART_1);
    push_str(&mut out, assets.rustdoc_css.as_str());
    push_str(&mut out, INDEX_PART_2);
    push_str(&mut out, assets.search_js.as_str());
    push_str(&mut out, INDEX_PART_3);
    push_str(&mut out, assets.stringdex_js.as_str());
    push_str(&mut out, INDEX_PART_4);
    push_str(&mut out, assets.storage_js.as_str());
    push_str(&mut out, INDEX_PART_5);
    push_str(&mut out, assets.main_js.as_str());
    push_str(&mut out, INDEX_PART_6);
    push_str(&mut out, assets.noscript_css.as_str());
    push_str(&mut out, INDEX_PART_7);
    push_str(&mut out, assets.favicon_png.as_str());
    push_str(&mut out, INDEX_PART_8);
    push_str(&mut out, assets.favicon_svg.as_str());
    push_str(&mut out, INDEX_PART_9);
    proof {
        assert(out@ =~= index_html(*assets));
    }
    string_from_chars(out.as_slice())
}

/// A file name matching `prefix*suffix`.
pub open spec fn matches_pattern(name: Seq<char>, prefix: Seq<char>, suffix: Seq<char>) -> bool {
    starts_with(name, prefix) && ends_with(name, suffix)
}

/// The message for an asset that is missing.
pub open spec fn missing_asset_message(prefix: Seq<char>, suffix: Seq<char>, dir: Seq<char>) -> Seq<char> {
    "Missing rustdoc asset matching pattern "@ + prefix + "*"@ + suffix + " in "@ + dir
}

/// The first name of the list that matches `prefix*suffix`, or the message
/// naming the pattern and the directory.
pub fn find_asset(names: &Vec<String>, prefix: &str, suffix: &str, static_dir: &str) -> (r: Result<
    String,
    String,
>)
    ensures
        match r {
            Ok(n) => exists|i: int|
                0 <= i < names@.len() && names@[i] == n && matches_pattern(n@, prefix@, suffix@)
                    && forall|j: int| 0 <= j < i ==> !matches_pattern(#[trigger] names@[j]@, prefix@, suffix@),
            Err(m) => m@ == missing_asset_message(prefix@, suffix@, static_dir@) && forall|j: int|
                0 <= j < names@.len() ==> !matches_pattern(#[trigger] names@[j]@, prefix@, suffix@),
        },
{
    let mut i: usize = 0;
    while i < names.len()
        invariant
            i <= names.len(),
            forall|j: int| 0 <= j < i ==> !matches_pattern(#[trigger] names@[j]@, prefix@, suffix@),
        decreases names.len() - i,
    {
        let n = string_chars(&names[i]);
        if starts_with_str(&n, prefix) && ends_with_str(&n, suffix) {
            let found = names[i].clone();
            return Ok(found);
        }
        i += 1;
    }
    let mut out: Vec<char> = Vec::new();
    push_str(&mut out, "Missing rustdoc asset matching pattern ");
    push_str(&mut out, prefix);
    push_str(&mut out, "*");
    push_str(&mut out, suffix);
    push_str(&mut out, " in ");
    push_str(&mut out, static_dir);
    proof {
        assert(out@ =~= missing_asset_message(prefix@, suffix@, static_dir@));
    }
    Err(string_from_chars(out.as_slice()))
}

/// The asset names sorted: a directory holds each name once, so the
/// strictly increasing list of the names.
pub fn sorted_names(names: &Vec<String>) -> (r: Vec<String>)
    ensures
        strictly_sorted(strings_view(r@)),
        strings_view(r@).to_set() == strings_view(names@).to_set(),
{
    let mut out: Vec<String> = Vec::new();
    let mut i: usize = 0;
    while i < names.len()
        invariant
            i <= names.len(),
            strictly_sorted(strings_view(out@)),
            strings_view(out@).to_set() == strings_view(names@.take(i as int)).to_set(),
        decreases names.len() - i,
    {
        insert_sorted_unique(&mut out, names[i].clone());
        proof {
            assert(strings_view(names@.take(i + 1)) =~= strings_view(names@.take(i as int)).push(
                names@[i as int]@,
            ));
            strings_view(names@.take(i as int)).lemma_push_to_set_commute(names@[i as int]@);
        }
        i += 1;
    }
    proof {
        assert(names@.take(names.len() as int) =~= names@);
    }
    out
}

/// The first name from position `k` on that matches `prefix*suffix`.
pub open spec fn first_matching(s: Seq<Seq<char>>, prefix: Seq<char>, suffix: Seq<char>, k: int) -> Option<Seq<char>>
    decreases s.len() - k,
{
    if k < 0 || k >= s.len() {
        None
    } else if matches_pattern(s[k], prefix, suffix) {
        Some(s[k])
    } else {
        first_matching(s, prefix, suffix, k + 1)
    }
}

proof fn lemma_first_matching_found(s: Seq<Seq<char>>, prefix: Seq<char>, suffix: Seq<char>, k: int, i: int)
    requires
        0 <= k <= i < s.len(),
        matches_pattern(s[i], prefix, suffix),
        forall|j: int| k <= j < i ==> !matches_pattern(#[trigger] s[j], prefix, suffix),
    ensures
        first_matching(s, prefix, suffix, k) == Some(s[i]),
    decreases i - k,
{
    if k < i {
        lemma_first_matching_found(s, prefix, suffix, k + 1, i);
    }
}

proof fn lemma_first_matching_none(s: Seq<Seq<char>>, prefix: Seq<char>, suffix: Seq<char>, k: int)
    requires
        0 <= k <= s.len(),
        forall|j: int| k <= j < s.len() ==> !matches_pattern(#[trigger] s[j], prefix, suffix),
    ensures
        first_matching(s, prefix, suffix, k) is None,
    decreases s.len() - k,
{
    if k < s.len() {
        lemma_first_matching_none(s, prefix, suffix, k + 1);
    }
}

/// The names of a directory in increasing order, each once.
pub open spec fn sorted_list(names: Seq<Seq<char>>) -> Seq<Seq<char>> {
    choose|s: Seq<Seq<char>>| strictly_sorted(s) && s.to_set() == names.to_set()
}

/// The asset matching `prefix*suffix`: the first such name in sorted
/// order, or the message naming the pattern and the directory.
pub open spec fn asset(names: Seq<Seq<char>>, dir: Seq<char>, prefix: Seq<char>, suffix: Seq<char>) -> Result<Seq<char>, Seq<char>> {
    match first_matching(sorted_list(names), prefix, suffix, 0) {
        Some(n) => Ok(n),
        None => Err(missing_asset_message(prefix, suffix, dir)),
    }
}

/// The message for the first asset, in the order the landing page lists
/// them, that is missing; `None` when all are there.
pub open spec fn first_missing(names: Seq<Seq<char>>, dir: Seq<char>) -> Option<Seq<char>> {
    if asset(names, dir, "normalize-"@, ".css"@) is Err {
        Some(asset(names, dir, "normalize-"@, ".css"@)->Err_0)
    } else if asset(names, dir, "rustdoc-"@, ".css"@) is Err {
        Some(asset(names, dir, "rustdoc-"@, ".css"@)->Err_0)
    } else if asset(names, dir, "main-"@, ".js"@) is Err {
        Some(asset(names, dir, "main-"@, ".js"@)->Err_0)
    } else if asset(names, dir, "search-"@, ".js"@) is Err {
        Some(asset(names, dir, "search-"@, ".js"@)->Err_0)
    } else if asset(names, dir, "stringdex-"@, ".js"@) is Err {
        Some(asset(names, dir, "stringdex-"@, ".js"@)->Err_0)
    } else if asset(names, dir, "storage-"@, ".js"@) is Err {
        Some(asset(names, dir, "storage-"@, ".js"@)->Err_0)
    } else if asset(names, dir, "favicon-"@, ".svg"@) is Err {
        Some(asset(names, dir, "favicon-"@, ".svg"@)->Err_0)
    } else if asset(names, dir, "favicon-32x32-"@, ".png"@) is Err {
        Some(asset(names, dir, "favicon-32x32-"@, ".png"@)->Err_0)
    } else if asset(names, dir, "noscript-"@, ".css"@) is Err {
        Some(asset(names, dir, "noscript-"@, ".css"@)->Err_0)
    } else {
        None
    }
}

/// [`find_asset`] on the sorted names, read as [`asset`].
fn find_sorted_asset(sorted: &Vec<String>, names: Ghost<Seq<Seq<char>>>, prefix: &str, suffix: &str, static_dir: &str) -> (r: Result<String, String>)
    requires
        strings_view(sorted@) == sorted_list(names@),
    ensures
        match r {
            Ok(n) => asset(names@, static_dir@, prefix@, suffix@) == Ok::<Seq<char>, Seq<char>>(n@)
                && matches_pattern(n@, prefix@, suffix@),
            Err(m) => asset(names@, static_dir@, prefix@, suffix@) == Err::<Seq<char>, Seq<char>>(m@),
        },
{
    let r = find_asset(sorted, prefix, suffix, static_dir);
    proof {
        let sv = strings_view(sorted@);
        if r is Ok {
            let n = r->Ok_0;
            {
                let i = choose|i: int|
                    0 <= i < sorted@.len() && sorted@[i] == n && matches_pattern(n@, prefix@, suffix@)
                        && forall|j: int| 0 <= j < i ==> !matches_pattern(#[trigger] sorted@[j]@, prefix@, suffix@);
                assert forall|j: int| 0 <= j < i implies !matches_pattern(#[trigger] sv[j], prefix@, suffix@) by {
                    assert(sv[j] == sorted@[j]@);
                }
                lemma_first_matching_found(sv, prefix@, suffix@, 0, i);
            }
        } else {
            {
                assert forall|j: int| 0 <= j < sv.len() implies !matches_pattern(#[trigger] sv[j], prefix@, suffix@) by {
                    assert(sv[j] == sorted@[j]@);
                }
                lemma_first_matching_none(sv, prefix@, suffix@, 0);
            }
        }
    }
    r
}

/// Finds every asset of the landing page among the file names of the
/// static files directory; the first matching name in sorted order is used.
pub fn discover_assets(names: &Vec<String>, static_dir: &str) -> (r: Result<RustdocAssets, String>)
    ensures
        r is Ok ==> ({
            let a = r->Ok_0;
            &&& matches_pattern(a.normalize_css@, "normalize-"@, ".css"@)
            &&& matches_pattern(a.rustdoc_css@, "rustdoc-"@, ".css"@)
            &&& matches_pattern(a.main_js@, "main-"@, ".js"@)
            &&& matches_pattern(a.search_js@, "search-"@, ".js"@)
            &&& matches_pattern(a.stringdex_js@, "stringdex-"@, ".js"@)
            &&& matches_pattern(a.storage_js@, "storage-"@, ".js"@)
            &&& matches_pattern(a.favicon_svg@, "favicon-"@, ".svg"@)
            &&& matches_pattern(a.favicon_png@, "favicon-32x32-"@, ".png"@)
            &&& matches_pattern(a.noscript_css@, "noscript-"@, ".css"@)
        }),
        match r {
            Ok(a) => {
                let nv = strings_view(names@);
                let d = static_dir@;
                &&& first_missing(nv, d) is None
                &&& asset(nv, d, "normalize-"@, ".css"@) == Ok::<Seq<char>, Seq<char>>(a.normalize_css@)
                &&& asset(nv, d, "rustdoc-"@, ".css"@) == Ok::<Seq<char>, Seq<char>>(a.rustdoc_css@)
                &&& asset(nv, d, "main-"@, ".js"@) == Ok::<Seq<char>, Seq<char>>(a.main_js@)
                &&& asset(nv, d, "search-"@, ".js"@) == Ok::<Seq<char>, Seq<char>>(a.search_js@)
                &&& asset(nv, d, "stringdex-"@, ".js"@) == Ok::<Seq<char>, Seq<char>>(a.stringdex_js@)
                &&& asset(nv, d, "storage-"@, ".js"@) == Ok::<Seq<char>, Seq<char>>(a.storage_js@)
                &&& asset(nv, d, "favicon-"@, ".svg"@) == Ok::<Seq<char>, Seq<char>>(a.favicon_svg@)
                &&& asset(nv, d, "favicon-32x32-"@, ".png"@) == Ok::<Seq<char>, Seq<char>>(a.favicon_png@)
                &&& asset(nv, d, "noscript-"@, ".css"@) == Ok::<Seq<char>, Seq<char>>(a.noscript_css@)
            },
            Err(e) => first_missing(strings_view(names@), static_dir@) == Some(e@),
        },
{
    let ghost nv = strings_view(names@);
    let sorted = sorted_names(names);
    proof {
        let t = sorted_list(nv);
        assert(strictly_sorted(strings_view(sorted@)) && strings_view(sorted@).to_set() == nv.to_set());
        crate::api_app::lemma_sorted_names_unique(strings_view(sorted@), t);
    }
    let g: Ghost<Seq<Seq<char>>> = Ghost(nv);
    let normalize_css = match find_sorted_asset(&sorted, g, "normalize-", ".css", static_dir) {
        Ok(n) => n,
        Err(e) => return Err(e),
    };
    let rustdoc_css = match find_sorted_asset(&sorted, g, "rustdoc-", ".css", static_dir) {
        Ok(n) => n,
        Err(e) => return Err(e),
    };
    let main_js = match find_sorted_asset(&sorted, g, "main-", ".js", static_dir) {
        Ok(n) => n,
        Err(e) => return Err(e),
    };
    let search_js = match find_sorted_asset(&sorted, g, "search-", ".js", static_dir) {
        Ok(n) => n,
        Err(e) => return Err(e),
    };
    let stringdex_js = match find_sorted_asset(&sorted, g, "stringdex-", ".js", static_dir) {
        Ok(n) => n,
        Err(e) => return Err(e),
    };
    let storage_js = match find_sorted_asset(&sorted, g, "storage-", ".js", static_dir) {
        Ok(n) => n,
        Err(e) => return Err(e),
    };
    let favicon_svg = match find_sorted_asset(&sorted, g, "favicon-", ".svg", static_dir) {
        Ok(n) => n,
        Err(e) => return Err(e),
    };
    let favicon_png = match find_sorted_asset(&sorted, g, "favicon-32x32-", ".png", static_dir) {
        Ok(n) => n,
        Err(e) => return Err(e),
    };
    let noscript_css = match find_sorted_asset(&sorted, g, "noscript-", ".css", static_dir) {
        Ok(n) => n,
        Err(e) => return Err(e),
    };
    Ok(
        RustdocAssets {
            normalize_css,
            rustdoc_css,
            main_js,
            search_js,
            stringdex_js,
            storage_js,
            favicon_svg,
            favicon_png,
            noscript_css,
        },
    )
}

} // verus!
