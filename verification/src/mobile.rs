//! What the client on a phone adds to the engine: where a workspace's store
//! lies on disk, and the failures that the client reports.
use vstd::prelude::*;
use crate::text::{chars_of, string_of};

verus! {

/// Whether a character may not stand in the name of a directory.
pub open spec fn is_reserved(c: char) -> bool {
    ||| c == '\\'
    ||| c == '/'
    ||| c == '!'
    ||| c == '@'
    ||| c == '#'
    ||| c == '$'
    ||| c == '%'
    ||| c == '^'
    ||| c == '&'
    ||| c == '*'
    ||| c == '('
    ||| c == ')'
    ||| c == '+'
    ||| c == '~'
    ||| c == '`'
    ||| c == '"'
    ||| c == '\''
    ||| c == ':'
    ||| c == ';'
    ||| c == ','
    ||| c == '?'
    ||| c == '<'
    ||| c == '>'
    ||| c == '|'
}

/// A name with an underscore in place of each reserved character.
pub open spec fn masked(name: Seq<char>) -> Seq<char> {
    Seq::new(
        name.len(),
        |i: int|
            if is_reserved(name[i]) {
                '_'
            } else {
                name[i]
            },
    )
}

/// A name with each run of underscores shortened to one underscore.
pub open spec fn squeezed(name: Seq<char>) -> Seq<char>
    decreases name.len(),
{
    if name.len() == 0 {
        name
    } else if name.last() == '_' && name.len() >= 2 && name[name.len() - 2] == '_' {
        squeezed(name.drop_last())
    } else {
        squeezed(name.drop_last()).push(name.last())
    }
}

/// A name without the underscores at its end.
pub open spec fn trimmed(name: Seq<char>) -> Seq<char>
    decreases name.len(),
{
    if name.len() > 0 && name.last() == '_' {
        trimmed(name.drop_last())
    } else {
        name
    }
}

/// The directory name that stands for `name`: reserved characters masked,
/// runs of underscores shortened, underscores at the end removed.
pub open spec fn escaped(name: Seq<char>) -> Seq<char> {
    trimmed(squeezed(masked(name)))
}

/// Whether a character may not stand in the name of a directory.
pub fn reserved(c: char) -> (answer: bool)
    ensures
        answer == is_reserved(c),
{
    c == '\\' || c == '/' || c == '!' || c == '@' || c == '#' || c == '$' || c == '%' || c == '^'
        || c == '&' || c == '*' || c == '(' || c == ')' || c == '+' || c == '~' || c == '`' || c
        == '"' || c == '\'' || c == ':' || c == ';' || c == ',' || c == '?' || c == '<' || c == '>'
        || c == '|'
}

/// Whether a name holds no reserved character.
pub open spec fn no_reserved(name: Seq<char>) -> bool {
    forall|i: int| 0 <= i < name.len() ==> !is_reserved(#[trigger] name[i])
}

/// Whether no underscore of a name follows another.
pub open spec fn no_run(name: Seq<char>) -> bool {
    forall|i: int| 0 < i < name.len() ==> !(name[i - 1] == '_' && #[trigger] name[i] == '_')
}

/// Whether a name does not end in an underscore.
pub open spec fn no_tail(name: Seq<char>) -> bool {
    name.len() == 0 || name.last() != '_'
}

/// What squeezing keeps: the last character, and the absence of reserved
/// characters; and it leaves no run behind.
proof fn lemma_squeezed(name: Seq<char>)
    ensures
        no_run(squeezed(name)),
        squeezed(name).len() <= name.len(),
        name.len() > 0 ==> squeezed(name).len() > 0 && squeezed(name).last() == name.last(),
        no_reserved(name) ==> no_reserved(squeezed(name)),
        no_run(name) ==> squeezed(name) == name,
    decreases name.len(),
{
    if name.len() > 0 {
        let front = name.drop_last();
        lemma_squeezed(front);
        let before = squeezed(front);
        if name.last() == '_' && name.len() >= 2 && name[name.len() - 2] == '_' {
            assert(front.last() == name[name.len() - 2]);
            assert(!no_run(name));
            assert(no_reserved(name) ==> no_reserved(front)) by {
                if no_reserved(name) {
                    assert forall|i: int| 0 <= i < front.len() implies !is_reserved(
                        #[trigger] front[i],
                    ) by {
                        assert(front[i] == name[i]);
                    }
                }
            }
        } else {
            let after = before.push(name.last());
            assert(no_run(after)) by {
                assert forall|i: int| 0 < i < after.len() implies !(after[i - 1] == '_'
                    && #[trigger] after[i] == '_') by {
                    if i == after.len() - 1 {
                        if front.len() > 0 {
                            assert(after[i - 1] == before.last());
                            assert(front.last() == name[name.len() - 2]);
                        }
                    } else {
                        assert(after[i] == before[i] && after[i - 1] == before[i - 1]);
                    }
                }
            }
            if no_reserved(name) {
                assert forall|i: int| 0 <= i < front.len() implies !is_reserved(
                    #[trigger] front[i],
                ) by {
                    assert(front[i] == name[i]);
                }
                assert forall|i: int| 0 <= i < after.len() implies !is_reserved(
                    #[trigger] after[i],
                ) by {
                    if i < before.len() {
                        assert(after[i] == before[i]);
                    } else {
                        assert(after[i] == name[name.len() - 1]);
                    }
                }
            }
            if no_run(name) {
                assert(no_run(front)) by {
                    assert forall|i: int| 0 < i < front.len() implies !(front[i - 1] == '_'
                        && #[trigger] front[i] == '_') by {
                        assert(front[i] == name[i] && front[i - 1] == name[i - 1]);
                    }
                }
                assert(after =~= name);
            }
        }
    }
}

/// What trimming gives: the start of the name, up to its last character that
/// is no underscore.
proof fn lemma_trimmed(name: Seq<char>)
    ensures
        no_tail(trimmed(name)),
        trimmed(name).len() <= name.len(),
        trimmed(name) == name.take(trimmed(name).len() as int),
        no_tail(name) ==> trimmed(name) == name,
    decreases name.len(),
{
    if name.len() > 0 && name.last() == '_' {
        let front = name.drop_last();
        lemma_trimmed(front);
        assert(front.take(trimmed(front).len() as int) =~= name.take(trimmed(front).len() as int));
    } else {
        assert(name.take(name.len() as int) =~= name);
    }
}

/// An escaped name is fit for a directory: it holds no reserved character,
/// no underscore of it follows another, and it does not end in one.
pub proof fn law_escaped_is_clean(name: Seq<char>)
    ensures
        no_reserved(escaped(name)),
        no_run(escaped(name)),
        no_tail(escaped(name)),
        escaped(name).len() <= name.len(),
{
    let hidden = masked(name);
    assert(no_reserved(hidden));
    lemma_squeezed(hidden);
    let short = squeezed(hidden);
    lemma_trimmed(short);
    let clean = trimmed(short);
    assert forall|i: int| 0 <= i < clean.len() implies !is_reserved(#[trigger] clean[i]) by {
        assert(clean[i] == short[i]);
    }
    assert forall|i: int| 0 < i < clean.len() implies !(clean[i - 1] == '_' && #[trigger] clean[i]
        == '_') by {
        assert(clean[i] == short[i] && clean[i - 1] == short[i - 1]);
    }
}

/// Escaping is idempotent: an escaped name is its own escaped name.
pub proof fn law_escape_is_idempotent(name: Seq<char>)
    ensures
        escaped(escaped(name)) == escaped(name),
{
    let clean = escaped(name);
    law_escaped_is_clean(name);
    assert(masked(clean) =~= clean);
    lemma_squeezed(clean);
    lemma_trimmed(clean);
}

fn mask(name: &Vec<char>) -> (out: Vec<char>)
    ensures
        out@ == masked(name@),
{
    let mut out: Vec<char> = Vec::new();
    let mut i: usize = 0;
    while i < name.len()
        invariant
            i <= name.len(),
            out.len() == i,
            forall|k: int| 0 <= k < i ==> out[k] == masked(name@)[k],
        decreases name.len() - i,
    {
        let c = name[i];
        out.push(
            if reserved(c) {
                '_'
            } else {
                c
            },
        );
        i += 1;
    }
    assert(out@ =~= masked(name@));
    out
}

fn squeeze(name: &Vec<char>) -> (out: Vec<char>)
    ensures
        out@ == squeezed(name@),
{
    let mut out: Vec<char> = Vec::new();
    let mut last_was_underscore = false;
    let mut i: usize = 0;
    assert(name@.take(0) =~= Seq::<char>::empty());
    while i < name.len()
        invariant
            i <= name.len(),
            out@ == squeezed(name@.take(i as int)),
            last_was_underscore == (i > 0 && name[i - 1] == '_'),
        decreases name.len() - i,
    {
        let c = name[i];
        proof {
            let longer = name@.take(i + 1);
            assert(longer.drop_last() =~= name@.take(i as int));
            assert(longer.last() == c);
            if i > 0 {
                assert(longer[longer.len() - 2] == name[i - 1]);
            }
        }
        if c == '_' {
            if !last_was_underscore {
                out.push(c);
            }
            last_was_underscore = true;
        } else {
            out.push(c);
            last_was_underscore = false;
        }
        i += 1;
    }
    assert(name@.take(i as int) =~= name@);
    out
}

fn trim(name: Vec<char>) -> (out: Vec<char>)
    ensures
        out@ == trimmed(name@),
{
    let mut out = name;
    while out.len() > 0 && out[out.len() - 1] == '_'
        invariant
            trimmed(out@) == trimmed(name@),
        decreases out.len(),
    {
        let ghost before = out@;
        out.pop();
        assert(out@ =~= before.drop_last());
    }
    out
}

/// The directory name that stands for `name`.
pub fn escape_filename(name: &str) -> (escaped_name: String)
    ensures
        escaped_name@ == escaped(name@),
{
    let chars = chars_of(name);
    let out = trim(squeeze(&mask(&chars)));
    string_of(&out)
}

/// Which kind of space a store belongs to.
#[derive(Clone, Copy, Debug, PartialEq, Eq, Structural)]
pub enum SpaceType {
    Userspace,
    Workspace,
}

/// The store of one space of one peer.
#[derive(Debug)]
pub struct StorageOptions {
    pub peer: String,
    pub space_type: SpaceType,
    pub id: String,
}

/// The directory, below the user's own, under which all stores lie.
pub const ROOT_DIR: &'static str = ".affine";

/// The name of the file that holds a store.
pub const DB_FILE_NAME: &'static str = "storage.db";

/// The directory that holds the stores of one kind of space.
pub fn spaces_dir(space_type: SpaceType) -> (dir: &'static str)
    ensures
        dir@ == (match space_type {
            SpaceType::Userspace => "userspaces"@,
            SpaceType::Workspace => "workspaces"@,
        }),
{
    match space_type {
        SpaceType::Userspace => "userspaces",
        SpaceType::Workspace => "workspaces",
    }
}

/// Where a store lies below the user's own directory, one name for each
/// step: the root, the kind of space, the peer with its name escaped, the
/// space, and the file.
pub fn db_path_parts(options: &StorageOptions) -> (parts: Vec<String>)
    ensures
        parts.len() == 5,
        parts[0]@ == ROOT_DIR@,
        parts[1]@ == (match options.space_type {
            SpaceType::Userspace => "userspaces"@,
            SpaceType::Workspace => "workspaces"@,
        }),
        parts[2]@ == escaped(options.peer@),
        parts[3]@ == options.id@,
        parts[4]@ == DB_FILE_NAME@,
{
    let mut parts: Vec<String> = Vec::new();
    parts.push(String::from_str(ROOT_DIR));
    parts.push(String::from_str(spaces_dir(options.space_type)));
    parts.push(escape_filename(options.peer.as_str()));
    parts.push(options.id.clone());
    parts.push(String::from_str(DB_FILE_NAME));
    parts
}

/// What the client reports when something fails.
#[derive(Debug)]
pub enum UniffiError {
    Failed(String),
    GetUserDocumentDirectoryFailed,
    CreateAffineDirFailed(String),
    EmptyDocStoragePath,
    EmptySpaceId,
    SqlxError(String),
    Base64DecodingError(String),
    TimestampDecodingError,
    InvalidUniversalId(String),
    InvalidSpaceType(String),
    ConcatSpaceDirFailed(String),
}

impl UniffiError {
    /// The failure in words, as the contracts see it.
    pub open spec fn text(self) -> Seq<char> {
        match self {
            UniffiError::Failed(what) => "Error: "@ + what@,
            UniffiError::GetUserDocumentDirectoryFailed => "Get user document directory failed"@,
            UniffiError::CreateAffineDirFailed(dir) => "Create affine dir failed: "@ + dir@,
            UniffiError::EmptyDocStoragePath => "Empty doc storage path"@,
            UniffiError::EmptySpaceId => "Empty space id"@,
            UniffiError::SqlxError(what) => "Sqlx error: "@ + what@,
            UniffiError::Base64DecodingError(what) => "Base64 decoding error: "@ + what@,
            UniffiError::TimestampDecodingError => "Timestamp decoding error"@,
            UniffiError::InvalidUniversalId(id) => "Invalid universal storage id: "@ + id@
                + ". It should be in format of @peer($peer);@type($type);@id($id);"@,
            UniffiError::InvalidSpaceType(kind) => "Invalid space type: "@ + kind@,
            UniffiError::ConcatSpaceDirFailed(what) => "Concat space dir failed: "@ + what@,
        }
    }

    /// The failure in words.
    pub fn message(&self) -> (message: String)
        ensures
            message@ == self.text(),
    {
        match self {
            UniffiError::Failed(what) => String::from_str("Error: ").concat(what.as_str()),
            UniffiError::GetUserDocumentDirectoryFailed => String::from_str(
                "Get user document directory failed",
            ),
            UniffiError::CreateAffineDirFailed(dir) => String::from_str(
                "Create affine dir failed: ",
            ).concat(dir.as_str()),
            UniffiError::EmptyDocStoragePath => String::from_str("Empty doc storage path"),
            UniffiError::EmptySpaceId => String::from_str("Empty space id"),
            UniffiError::SqlxError(what) => String::from_str("Sqlx error: ").concat(what.as_str()),
            UniffiError::Base64DecodingError(what) => String::from_str(
                "Base64 decoding error: ",
            ).concat(what.as_str()),
            UniffiError::TimestampDecodingError => String::from_str("Timestamp decoding error"),
            UniffiError::InvalidUniversalId(id) => String::from_str(
                "Invalid universal storage id: ",
            ).concat(id.as_str()).concat(
                ". It should be in format of @peer($peer);@type($type);@id($id);",
            ),
            UniffiError::InvalidSpaceType(kind) => String::from_str("Invalid space type: ").concat(
                kind.as_str(),
            ),
            UniffiError::ConcatSpaceDirFailed(what) => String::from_str(
                "Concat space dir failed: ",
            ).concat(what.as_str()),
        }
    }
}

} // verus!
