//! The store is a folder of files, one for each conversation, found by name.
//! Here are the decisions that lie between two calls to the store: which
//! file a name means, and whether bytes replace a file or make a new one.

use vstd::prelude::*;
use vstd::string::StringExecFns;

verus! {

/// What a listing tells of one file.
pub struct FileEntry {
    pub name: Option<String>,
    pub id: Option<String>,
}

/// The error of a listing that came without its list of files.
pub open spec fn no_file_list() -> Seq<char> {
    "list_folder_contents.files is None"@
}

/// The name that a listed file goes by: a file without a name goes by the
/// empty one.
pub open spec fn shown_name(file: FileEntry) -> Seq<char> {
    match file.name {
        Some(name) => name@,
        None => Seq::empty(),
    }
}

/// Whether `at` is the place of the first file in `files` that goes by
/// `name`.
pub open spec fn first_named(files: Seq<FileEntry>, name: Seq<char>, at: int) -> bool {
    &&& 0 <= at < files.len()
    &&& shown_name(files[at]) == name
    &&& forall|j: int| 0 <= j < at ==> shown_name(#[trigger] files[j]) != name
}

/// Whether no file in `files` goes by `name`.
pub open spec fn none_named(files: Seq<FileEntry>, name: Seq<char>) -> bool {
    forall|j: int| 0 <= j < files.len() ==> shown_name(#[trigger] files[j]) != name
}

/// The id of the file that `name` means in a listing: that of the first file
/// of that name, which may have none; `Ok(None)` where no file has the name.
/// A listing that failed hands its error on, and one without a list of files
/// is an error of its own.
pub fn get_id_by_name(listing: Result<Option<Vec<FileEntry>>, String>, name: &str) -> (res: Result<
    Option<String>,
    String,
>)
    ensures
        match listing {
            Err(e) => res == Err::<Option<String>, String>(e),
            Ok(None) => res matches Err(e) && e@ == no_file_list(),
            Ok(Some(files)) => res matches Ok(found) && (if none_named(files@, name@) {
                found is None
            } else {
                exists|at: int| first_named(files@, name@, at) && found == files@[at].id
            }),
        },
{
    match listing {
        Err(e) => Err(e),
        Ok(None) => Err(String::from_str("list_folder_contents.files is None")),
        Ok(Some(files)) => {
            let wanted = String::from_str(name);
            let mut i: usize = 0;
            while i < files.len()
                invariant
                    i <= files.len(),
                    listing == Ok::<Option<Vec<FileEntry>>, String>(Some(files)),
                    wanted@ == name@,
                    forall|j: int| 0 <= j < i ==> shown_name(#[trigger] files@[j]) != name@,
                decreases files.len() - i,
            {
                let matches_name = match &files[i].name {
                    Some(n) => *n == wanted,
                    None => wanted.as_str().unicode_len() == 0,
                };
                if matches_name {
                    proof {
                        assert(shown_name(files@[i as int]) =~= name@);
                        assert(first_named(files@, name@, i as int));
                    }
                    return Ok(
                        match &files[i].id {
                            Some(id) => Some(id.clone()),
                            None => None,
                        },
                    );
                }
                i = i + 1;
            }
            Ok(None)
        },
    }
}

/// The character that writes the digit `d`.
pub open spec fn digit(d: int) -> char {
    if d == 0 {
        '0'
    } else if d == 1 {
        '1'
    } else if d == 2 {
        '2'
    } else if d == 3 {
        '3'
    } else if d == 4 {
        '4'
    } else if d == 5 {
        '5'
    } else if d == 6 {
        '6'
    } else if d == 7 {
        '7'
    } else if d == 8 {
        '8'
    } else {
        '9'
    }
}

/// The decimal digits of `n`, without leading zeros.
pub open spec fn digits(n: nat) -> Seq<char>
    decreases n,
{
    if n < 10 {
        seq![digit(n as int)]
    } else {
        digits(n / 10).push(digit((n % 10) as int))
    }
}

/// `n` written in decimal, with a minus sign where it is negative.
pub open spec fn decimal(n: int) -> Seq<char> {
    if n < 0 {
        seq!['-'] + digits((-n) as nat)
    } else {
        digits(n as nat)
    }
}

/// The text of one digit.
fn digit_str(d: u64) -> (s: &'static str)
    requires
        d < 10,
    ensures
        s@ == seq![digit(d as int)],
{
    proof {
        reveal_strlit("0");
        reveal_strlit("1");
        reveal_strlit("2");
        reveal_strlit("3");
        reveal_strlit("4");
        reveal_strlit("5");
        reveal_strlit("6");
        reveal_strlit("7");
        reveal_strlit("8");
        reveal_strlit("9");
    }
    let s = if d == 0 {
        "0"
    } else if d == 1 {
        "1"
    } else if d == 2 {
        "2"
    } else if d == 3 {
        "3"
    } else if d == 4 {
        "4"
    } else if d == 5 {
        "5"
    } else if d == 6 {
        "6"
    } else if d == 7 {
        "7"
    } else if d == 8 {
        "8"
    } else {
        "9"
    };
    proof {
        assert(s@ =~= seq![digit(d as int)]);
    }
    s
}

/// The name under which the store keeps a conversation: its id in decimal.
pub fn blob_key(chat_id: i64) -> (key: String)
    ensures
        key@ == decimal(chat_id as int),
{
    let size: u64 = if chat_id >= 0 {
        chat_id as u64
    } else {
        (-(chat_id + 1)) as u64 + 1
    };
    let mut text = String::from_str(digit_str(size % 10));
    let mut rest: u64 = size / 10;
    proof {
        if rest > 0 {
            assert(digits(size as nat) =~= digits(rest as nat) + text@);
        }
    }
    while rest > 0
        invariant
            rest > 0 ==> digits(size as nat) == digits(rest as nat) + text@,
            rest == 0 ==> digits(size as nat) == text@,
        decreases rest,
    {
        let head = String::from_str(digit_str(rest % 10));
        let ghost tail = text@;
        text = head.concat(text.as_str());
        proof {
            let d = seq![digit((rest % 10) as int)];
            assert(text@ == d + tail);
            if rest >= 10 {
                assert(digits(rest as nat) == digits((rest / 10) as nat).push(
                    digit((rest % 10) as int),
                ));
                assert(digits((rest / 10) as nat).push(digit((rest % 10) as int)) + tail =~= digits(
                    (rest / 10) as nat,
                ) + (d + tail));
            } else {
                assert(digits(rest as nat) + tail =~= d + tail);
            }
        }
        rest = rest / 10;
    }
    if chat_id < 0 {
        proof {
            reveal_strlit("-");
            assert("-"@ =~= seq!['-']);
        }
        String::from_str("-").concat(text.as_str())
    } else {
        text
    }
}

/// How bytes are written under a name.
pub enum Upload {
    /// Over the file with this id.
    Replace(String),
    /// Into a new file.
    Create,
}

/// How bytes are written under a name, given what the search for the name
/// found: over the file where there is one with an id, into a new file where
/// there is none or the search failed.
pub fn update_or_create_file(found: Result<Option<String>, String>) -> (plan: Upload)
    ensures
        plan == match found {
            Ok(Some(id)) => Upload::Replace(id),
            _ => Upload::Create,
        },
{
    match found {
        Ok(Some(id)) => Upload::Replace(id),
        _ => Upload::Create,
    }
}

} // verus!
