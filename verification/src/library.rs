//! The list of templates to choose from.
use vstd::prelude::*;

use crate::template::opt_text;
use crate::text::{owned, same_text};

verus! {

/// Where a template comes from.
#[derive(Clone, Debug)]
pub enum TemplateOrigin {
    /// It is built in and cannot be overwritten.
    Bundled,
    /// A file in the operator's directory.
    User { path: String },
    /// A file that was named or opened.
    Cli { path: String },
}

/// A template to choose.
#[derive(Clone, Debug)]
pub struct TemplateEntry {
    pub name: String,
    pub origin: TemplateOrigin,
}

/// The file of a template.
pub open spec fn path_of(o: TemplateOrigin) -> Option<Seq<char>> {
    match o {
        TemplateOrigin::Bundled => None,
        TemplateOrigin::User { path } => Some(path@),
        TemplateOrigin::Cli { path } => Some(path@),
    }
}

impl TemplateOrigin {
    /// The file of the template. A template with one can be saved in place.
    pub fn path(&self) -> (r: Option<&String>)
        ensures
            match r {
                Some(p) => path_of(*self) == Some(p@),
                None => path_of(*self) is None,
            },
    {
        match self {
            TemplateOrigin::Bundled => None,
            TemplateOrigin::User { path } => Some(path),
            TemplateOrigin::Cli { path } => Some(path),
        }
    }
}

/// The text under a member of the object that a JSON text stands for; none where the
/// text is not JSON, or has no text there.
pub uninterp spec fn json_member(text: Seq<char>, member: Seq<char>) -> Option<Seq<char>>;

/// `serde_json::from_str` to a `serde_json::Value`, a member of that through the
/// value's `Index`, and `Value::as_str` on it: the text under that member of the JSON
/// object, none where the text does not parse, is no object, has no such member, or
/// that is no string. The result depends on the text and the member alone.
#[verifier::external_body]
fn read_json_member(text: &str, member: &str) -> (r: Option<String>)
    ensures
        opt_text(r) == json_member(text@, member@),
{
    let value: serde_json::Value = serde_json::from_str(text).ok()?;
    value[member].as_str().map(str::to_string)
}

/// The member of a template's file that holds its name.
pub const NAME_MEMBER: &'static str = "name";

/// The name of a template that was opened: the one that it gives itself, else that of
/// its file, else a word.
pub open spec fn opened_name(given: Option<Seq<char>>, stem: Option<Seq<char>>) -> Seq<char> {
    match given {
        Some(n) => n,
        None => match stem {
            Some(s) => s,
            None => "opened"@,
        },
    }
}

/// The name of a template that was opened: the one that it gives itself, else that of
/// its file, else a word.
pub fn choose_name(given: Option<String>, stem: Option<&str>) -> (r: String)
    ensures
        r@ == opened_name(
            opt_text(given),
            match stem {
                Some(s) => Some(s@),
                None => None,
            },
        ),
{
    match given {
        Some(n) => n,
        None => match stem {
            Some(s) => owned(s),
            None => owned("opened"),
        },
    }
}

/// The first file in the list that is `file`, as full paths.
pub fn find_file(files: &Vec<Option<String>>, file: &str) -> (r: Option<usize>)
    ensures
        match r {
            Some(i) => {
                &&& i < files.len()
                &&& opt_text(files@[i as int]) == Some(file@)
                &&& forall|k: int| 0 <= k < i ==> opt_text(#[trigger] files@[k]) != Some(file@)
            },
            None => forall|k: int|
                0 <= k < files.len() ==> opt_text(#[trigger] files@[k]) != Some(file@),
        },
{
    let mut i: usize = 0;
    while i < files.len()
        invariant
            i <= files.len(),
            forall|k: int| 0 <= k < i ==> opt_text(#[trigger] files@[k]) != Some(file@),
        decreases files.len() - i,
    {
        match &files[i] {
            Some(f) => {
                if same_text(f.as_str(), file) {
                    return Some(i);
                }
            },
            None => {},
        }
        i = i + 1;
    }
    None
}

/// Put a file that was opened behind the list: where it stands.
pub fn add_opened(entries: &mut Vec<TemplateEntry>, path: &str, stem: Option<&str>, text: &str) -> (i:
    usize)
    ensures
        i == old(entries).len(),
        final(entries).len() == i + 1,
        final(entries)@.take(i as int) == old(entries)@,
        final(entries)@[i as int].name@ == opened_name(
            json_member(text@, NAME_MEMBER@),
            match stem {
                Some(s) => Some(s@),
                None => None,
            },
        ),
        final(entries)@[i as int].origin is Cli,
        path_of(final(entries)@[i as int].origin) == Some(path@),
{
    let i: usize = entries.len();
    let ghost before = entries@;
    let name = choose_name(read_json_member(text, NAME_MEMBER), stem);
    entries.push(TemplateEntry { name, origin: TemplateOrigin::Cli { path: owned(path) } });
    proof {
        assert(entries@.take(i as int) =~= before);
    }
    i
}

/// Put a template that is yet to be saved behind the list: where it stands.
pub fn add_blank(entries: &mut Vec<TemplateEntry>, name: &str, path: &str) -> (i: usize)
    ensures
        i == old(entries).len(),
        final(entries).len() == i + 1,
        final(entries)@.take(i as int) == old(entries)@,
        final(entries)@[i as int].name@ == name@,
        final(entries)@[i as int].origin is Cli,
        path_of(final(entries)@[i as int].origin) == Some(path@),
{
    let i: usize = entries.len();
    let ghost before = entries@;
    entries.push(
        TemplateEntry { name: owned(name), origin: TemplateOrigin::Cli { path: owned(path) } },
    );
    proof {
        assert(entries@.take(i as int) =~= before);
    }
    i
}

/// The file that the template on screen is saved to in place. None where it is built
/// in or none of the list: the operator has to choose one.
pub fn save_path(entries: &Vec<TemplateEntry>, current: Option<usize>) -> (r: Option<String>)
    ensures
        opt_text(r) == match current {
            Some(i) => if i < entries.len() {
                path_of(entries@[i as int].origin)
            } else {
                None
            },
            None => None,
        },
{
    match current {
        Some(i) => {
            if i < entries.len() {
                match entries[i].origin.path() {
                    Some(p) => Some(owned(p.as_str())),
                    None => None,
                }
            } else {
                None
            }
        },
        None => None,
    }
}

/// The entry of the template on screen: the one with its file, else the first with
/// its name.
pub fn current_entry(
    entries: &Vec<TemplateEntry>,
    files: &Vec<Option<String>>,
    file: Option<&str>,
    name: &str,
) -> (r: Option<usize>)
    ensures
        ({
            let by_file = file is Some && exists|k: int|
                0 <= k < files.len() && opt_text(#[trigger] files@[k]) == Some(file->0@);
            if by_file {
                r is Some && r->0 < files.len() && opt_text(files@[r->0 as int]) == Some(file->0@)
                    && forall|k: int|
                    0 <= k < r->0 ==> opt_text(#[trigger] files@[k]) != Some(file->0@)
            } else {
                match r {
                    Some(i) => i < entries.len() && entries@[i as int].name@ == name@
                        && forall|k: int| 0 <= k < i ==> (#[trigger] entries@[k]).name@ != name@,
                    None => forall|k: int|
                        0 <= k < entries.len() ==> (#[trigger] entries@[k]).name@ != name@,
                }
            }
        }),
{
    match file {
        Some(f) => {
            match find_file(files, f) {
                Some(i) => {
                    return Some(i);
                },
                None => {},
            }
        },
        None => {},
    }
    let mut i: usize = 0;
    while i < entries.len()
        invariant
            i <= entries.len(),
            file is Some ==> forall|k: int|
                0 <= k < files.len() ==> opt_text(#[trigger] files@[k]) != Some(file->0@),
            forall|k: int| 0 <= k < i ==> (#[trigger] entries@[k]).name@ != name@,
        decreases entries.len() - i,
    {
        if same_text(entries[i].name.as_str(), name) {
            return Some(i);
        }
        i = i + 1;
    }
    None
}

/// The entry of a file that was just saved; it is put behind the list where it is not
/// in it.
pub fn locate_saved(
    entries: &mut Vec<TemplateEntry>,
    files: &Vec<Option<String>>,
    file: &str,
    name: &str,
    path: &str,
) -> (i: usize)
    requires
        files.len() == old(entries).len(),
    ensures
        i < final(entries).len(),
        ({
            let listed = exists|k: int|
                0 <= k < files.len() && opt_text(#[trigger] files@[k]) == Some(file@);
            if listed {
                &&& final(entries)@ == old(entries)@
                &&& opt_text(files@[i as int]) == Some(file@)
                &&& forall|k: int| 0 <= k < i ==> opt_text(#[trigger] files@[k]) != Some(file@)
            } else {
                &&& i == old(entries).len()
                &&& final(entries).len() == i + 1
                &&& final(entries)@.take(i as int) == old(entries)@
                &&& final(entries)@[i as int].name@ == name@
                &&& final(entries)@[i as int].origin is Cli
                &&& path_of(final(entries)@[i as int].origin) == Some(path@)
            }
        }),
{
    match find_file(files, file) {
        Some(i) => i,
        None => {
            let i: usize = entries.len();
            let ghost before = entries@;
            entries.push(
                TemplateEntry {
                    name: owned(name),
                    origin: TemplateOrigin::Cli { path: owned(path) },
                },
            );
            proof {
                assert(entries@.take(i as int) =~= before);
            }
            i
        },
    }
}

} // verus!
