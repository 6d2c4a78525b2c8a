//! Which files of the project's web directory an installer carries.

use crate::text::{ends_with, lemma_framed, same_text};
use vstd::prelude::*;

verus! {

/// An entry of the web directory that an installer carries: a directory of the
/// official page, which is carried as a whole, or one of its files. What it
/// carries of the Mod is chosen file by file.
pub open spec fn carried_root(name: Seq<char>, is_dir: bool) -> bool {
    if is_dir {
        name == "tiles"@ || name == "static"@
    } else {
        ||| name == "index.html"@
        ||| name == "desktop_bridge.js"@
        ||| name == "favicon.ico"@
        ||| name == "transporter.html"@
    }
}

/// Whether an entry of the web directory is carried.
pub fn is_carried_root(name: &str, is_dir: bool) -> (r: bool)
    ensures
        r == carried_root(name@, is_dir),
{
    if is_dir {
        same_text(name, "tiles") || same_text(name, "static")
    } else {
        same_text(name, "index.html") || same_text(name, "desktop_bridge.js") || same_text(
            name,
            "favicon.ico",
        ) || same_text(name, "transporter.html")
    }
}

/// An entry that no installer carries, whatever directory it lies in: keys,
/// settings, accounts, and what only development needs.
pub open spec fn kept_out(name: Seq<char>) -> bool {
    ||| ".pfx"@.is_suffix_of(name)
    ||| name == "config.json"@
    ||| name == "accounts.json"@
    ||| name == "accounts.db"@
    ||| name == "node_modules"@
    ||| name == "package.json"@
    ||| name == "package-lock.json"@
    ||| name == "webpack.config.cjs"@
}

/// Whether an entry of a directory that is carried as a whole is left out.
pub fn is_kept_out(name: &str) -> (r: bool)
    ensures
        r == kept_out(name@),
{
    ends_with(name, ".pfx") || same_text(name, "config.json") || same_text(name, "accounts.json")
        || same_text(name, "accounts.db") || same_text(name, "node_modules") || same_text(
        name,
        "package.json",
    ) || same_text(name, "package-lock.json") || same_text(name, "webpack.config.cjs")
}

/// A file of the Mod's scripts that an installer carries: a compiled bundle or
/// its licence.
pub open spec fn carried_script(name: Seq<char>) -> bool {
    ".bundle.js"@.is_suffix_of(name) || ".LICENSE.txt"@.is_suffix_of(name)
}

/// Whether an entry of the Mod's scripts is carried.
pub fn is_carried_script(name: &str, is_file: bool) -> (r: bool)
    ensures
        r == (is_file && carried_script(name@)),
{
    is_file && (ends_with(name, ".bundle.js") || ends_with(name, ".LICENSE.txt"))
}

proof fn lemma_suffix_last(suffix: Seq<char>, s: Seq<char>)
    requires
        suffix.is_suffix_of(s),
        suffix.len() > 0,
    ensures
        s.last() == suffix.last(),
{
    let start = s.len() - suffix.len();
    assert(suffix =~= s.subrange(start, s.len() as int));
    assert(s.subrange(start, s.len() as int)[suffix.len() - 1] == s.last());
}

/// No installer carries a source map or the uncompiled entry script of the Mod.
pub proof fn law_sources_are_not_carried(name: Seq<char>)
    requires
        ".map"@.is_suffix_of(name) || name == "index.js"@,
    ensures
        !carried_script(name),
{
    reveal_strlit(".map");
    reveal_strlit("index.js");
    reveal_strlit(".bundle.js");
    reveal_strlit(".LICENSE.txt");
    if ".map"@.is_suffix_of(name) {
        lemma_suffix_last(".map"@, name);
    }
    if ".bundle.js"@.is_suffix_of(name) {
        lemma_suffix_last(".bundle.js"@, name);
    }
    if ".LICENSE.txt"@.is_suffix_of(name) {
        lemma_suffix_last(".LICENSE.txt"@, name);
    }
}

/// Every bundle and every licence beside one is carried, whatever its name, and
/// every certificate is kept out.
pub proof fn law_every_bundle_is_carried(name: Seq<char>)
    ensures
        carried_script(name + ".bundle.js"@),
        carried_script(name + ".LICENSE.txt"@),
        kept_out(name + ".pfx"@),
{
    let none = Seq::<char>::empty();
    lemma_framed(none, name, ".bundle.js"@);
    lemma_framed(none, name, ".LICENSE.txt"@);
    lemma_framed(none, name, ".pfx"@);
    assert(none + name + ".bundle.js"@ =~= name + ".bundle.js"@);
    assert(none + name + ".LICENSE.txt"@ =~= name + ".LICENSE.txt"@);
    assert(none + name + ".pfx"@ =~= name + ".pfx"@);
}

/// Bundles, licences and data files of ordinary names are not kept out.
pub proof fn law_ordinary_files_are_not_kept_out(name: Seq<char>)
    requires
        name != "config.json"@,
        name != "accounts.json"@,
        name != "accounts.db"@,
        name != "node_modules"@,
        name != "package.json"@,
        name != "package-lock.json"@,
        name != "webpack.config.cjs"@,
    ensures
        kept_out(name) <==> ".pfx"@.is_suffix_of(name),
{
}

/// At the top of the web directory a name is carried either as a directory or as a
/// file, never as both, namely the page's own.
pub proof fn law_top_of_the_page_is_carried(name: Seq<char>)
    ensures
        carried_root(name, true) ==> !carried_root(name, false),
        carried_root(name, true) <==> name == "tiles"@ || name == "static"@,
        carried_root(name, false) <==> name == "index.html"@ || name == "desktop_bridge.js"@ || name
            == "favicon.ico"@ || name == "transporter.html"@,
{
    reveal_strlit("tiles");
    reveal_strlit("static");
    reveal_strlit("index.html");
    reveal_strlit("desktop_bridge.js");
    reveal_strlit("favicon.ico");
    reveal_strlit("transporter.html");
    assert("tiles"@.len() == 5 && "static"@.len() == 6 && "index.html"@.len() == 10
        && "desktop_bridge.js"@.len() == 17 && "favicon.ico"@.len() == 11
        && "transporter.html"@.len() == 16);
}

/// What an installer carries is decided by the name, and for a script also by its
/// being a file.
pub proof fn law_carried_files_are_chosen_by_name(
    name: &str,
    is_dir: bool,
    is_file: bool,
    root: bool,
    out: bool,
    script: bool,
)
    requires
        call_ensures(is_carried_root, (name, is_dir), root),
        call_ensures(is_kept_out, (name,), out),
        call_ensures(is_carried_script, (name, is_file), script),
    ensures
        root && is_dir ==> name@ == "tiles"@ || name@ == "static"@,
        is_dir && (name@ == "tiles"@ || name@ == "static"@) ==> root,
        !is_dir && (name@ == "index.html"@ || name@ == "desktop_bridge.js"@ || name@
            == "favicon.ico"@ || name@ == "transporter.html"@) ==> root,
        ".pfx"@.is_suffix_of(name@) ==> out,
        script <==> is_file && (".bundle.js"@.is_suffix_of(name@) || ".LICENSE.txt"@.is_suffix_of(
            name@,
        )),
{
}

} // verus!
