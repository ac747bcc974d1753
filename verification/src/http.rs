//! What the status server serves besides the status: which file answers a
//! request, and how a directory of the store is listed.

use vstd::prelude::*;

verus! {

/// The file of the frontend that answers a request for `path`: the path
/// itself, or `index.html` where the path is empty.
pub open spec fn static_file_of(path: Seq<char>) -> Seq<char> {
    if path.len() == 0 {
        "index.html"@
    } else {
        path
    }
}

/// Where in `frontend_dir` the file that answers a request for `path` lies.
pub fn static_file_path(frontend_dir: &str, path: &str) -> (r: String)
    ensures
        r@ == frontend_dir@ + "/"@ + static_file_of(path@),
{
    let mut r = String::from_str(frontend_dir);
    r.append("/");
    if path.is_empty() {
        r.append("index.html");
    } else {
        r.append(path);
    }
    r
}

/// Where in the store the artifact lies that a request for `path` below
/// `/nix/store` or `/store` means.
pub fn store_path(path: &str) -> (r: String)
    ensures
        r@ == "/nix/store"@ + path@,
{
    let mut r = String::from_str("/nix/store");
    r.append(path);
    r
}

/// What is shown after the name of a directory entry: `/` for a directory.
pub open spec fn entry_suffix(is_dir: bool) -> Seq<char> {
    if is_dir {
        "/"@
    } else {
        Seq::empty()
    }
}

/// The line of a listing for the entry `name` of the directory at `path`.
pub open spec fn listing_item(path: Seq<char>, name: Seq<char>, is_dir: bool) -> Seq<char> {
    "<li><a href=\""@ + path + "/"@ + name + entry_suffix(is_dir) + "\">"@ + name + entry_suffix(
        is_dir,
    ) + "</a></li>"@
}

/// The lines of a listing for the first `n` of `entries`.
pub open spec fn listing_items(path: Seq<char>, entries: Seq<(Seq<char>, bool)>, n: nat) -> Seq<
    char,
>
    decreases n,
{
    if n == 0 || n > entries.len() {
        Seq::empty()
    } else {
        listing_items(path, entries, (n - 1) as nat) + listing_item(
            path,
            entries[n - 1].0,
            entries[n - 1].1,
        )
    }
}

/// The page that lists the directory at `path` with the given entries.
pub open spec fn listing_page(path: Seq<char>, entries: Seq<(Seq<char>, bool)>) -> Seq<char> {
    "<html><body><h1>Directory listing</h1><ul>"@ + listing_items(path, entries, entries.len())
        + "</ul></body></html>"@
}

/// The name and kind of each entry of a list, in order.
pub open spec fn entries_of(entries: Seq<(String, bool)>) -> Seq<(Seq<char>, bool)> {
    entries.map_values(|e: (String, bool)| (e.0@, e.1))
}

/// The page that lists the directory at `path`. Each entry is a name and
/// whether it is a directory.
pub fn directory_listing(path: &str, entries: &Vec<(String, bool)>) -> (r: String)
    ensures
        r@ == listing_page(path@, entries_of(entries@)),
{
    let ghost ev = entries_of(entries@);
    let mut r = String::from_str("<html><body><h1>Directory listing</h1><ul>");
    let ghost head = r@;
    let mut i: usize = 0;
    assert(r@ =~= head + listing_items(path@, ev, 0));
    while i < entries.len()
        invariant
            i <= entries.len(),
            ev == entries_of(entries@),
            r@ == head + listing_items(path@, ev, i as nat),
        decreases entries.len() - i,
    {
        let ghost r0 = r@;
        let name = entries[i].0.as_str();
        let is_dir = entries[i].1;
        assert(ev[i as int] == (name@, is_dir));
        r.append("<li><a href=\"");
        r.append(path);
        r.append("/");
        r.append(name);
        if is_dir {
            r.append("/");
        }
        r.append("\">");
        r.append(name);
        if is_dir {
            r.append("/");
        }
        r.append("</a></li>");
        assert(r@ =~= r0 + listing_item(path@, name@, is_dir));
        assert(r@ =~= head + listing_items(path@, ev, (i + 1) as nat));
        i += 1;
    }
    r.append("</ul></body></html>");
    r
}

} // verus!
