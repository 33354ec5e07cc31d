//! What holds of remote paths, of the commands that take them, and of the jobs on remote files.
use vstd::prelude::*;

use super::lemma_piece_behind_slash;
use super::texts::{
    is_blank, is_slashes, is_trim, lemma_leading_slashes, lemma_trailing_slashes, lemma_trimmed,
};
use crate::api::{
    first_match, move_like_payload, normalize_remote_path, normalized_remote, parent_remote_dir,
    remote_name, remote_parent, resolve_entry_by_path, EntryLookup, FileJob, PanClient, RemoteEntry,
};
use crate::batch::BatchTask;
use crate::cli::{
    plan_task, resolve_remote_path, resolve_upload_remote_path, resolved, Action, Commands,
};
use crate::config::AppCredentials;
use crate::error::{Error, ErrorView};
use crate::http::{HttpRequest, Method};
use crate::json::{json_array, json_object, json_strings};
use crate::path::{
    before_piece, blank_piece, body_end, body_start, char_marks, last_piece, lemma_piece_start,
    lossy_text, parent_end, piece_start, LocalPath, Mark,
};
use crate::text::{has_double_slash, is_white_space, trimmed};

verus! {

/// A path as the platform takes it: absolute, without an empty component, and without white space
/// behind it.
pub open spec fn is_normal(path: Seq<char>) -> bool {
    &&& path.len() > 0
    &&& path[0] == '/'
    &&& !has_double_slash(path)
    &&& !is_white_space(path.last())
}

/// A name that stands for itself in a directory.
pub open spec fn is_plain_name(name: Seq<char>) -> bool {
    &&& name.len() > 0
    &&& !name.contains('/')
    &&& name != seq!['.']
    &&& name != seq!['.', '.']
}

/// A directory other than the root, written without a slash or a `.` at the end.
pub open spec fn is_directory(dir: Seq<char>) -> bool {
    &&& dir.len() > 1
    &&& dir[0] == '/'
    &&& dir.last() != '/'
    &&& !(dir.last() == '.' && dir[dir.len() - 2] == '/')
}

pub proof fn lemma_normalized(path: Seq<char>)
    requires
        is_normal(path),
    ensures
        trimmed(path) == path,
        normalized_remote(path) == Ok::<Seq<char>, ErrorView>(path),
{
    let nothing = Seq::<char>::empty();
    lemma_trimmed(nothing, path, nothing);
    assert(nothing + path + nothing =~= path);
}

/// White space around a remote path and a missing slash before it change nothing.
pub proof fn law_remote_path_is_normalized(
    lead: Seq<char>,
    path: Seq<char>,
    trail: Seq<char>,
    absolute: &str,
    first: Result<String, Error>,
    relative: &str,
    second: Result<String, Error>,
)
    requires
        is_blank(lead),
        is_normal(path),
        is_blank(trail),
        call_ensures(normalize_remote_path, (absolute,), first),
        absolute@ == lead + path + trail,
        call_ensures(normalize_remote_path, (relative,), second),
        path.len() > 1,
        !is_white_space(path[1]),
        relative@ == lead + path.drop_first() + trail,
    ensures
        first matches Ok(text) && text@ == path,
        second matches Ok(text) && text@ == path,
{
    let rest = path.drop_first();
    lemma_trimmed(lead, path, trail);
    lemma_trimmed(lead, rest, trail);
    assert(rest[0] == path[1]);
    if rest[0] == '/' {
        assert(path[0] == '/' && path[0int + 1] == '/');
    }
    assert(seq!['/'] + rest =~= path);
}

/// A blank path and one with an empty component are refused, with the text that was given.
pub proof fn law_remote_path_is_refused(
    lead: Seq<char>,
    middle: Seq<char>,
    trail: Seq<char>,
    path: &str,
    result: Result<String, Error>,
)
    requires
        call_ensures(normalize_remote_path, (path,), result),
        path@ == lead + middle + trail,
        is_blank(lead),
        is_trim(middle),
        is_blank(trail),
        middle.len() == 0 || exists|i: int|
            0 <= i < middle.len() - 1 && #[trigger] middle[i] == '/' && middle[i + 1] == '/',
    ensures
        result matches Err(error) && error@ == ErrorView::InvalidRemotePath(path@),
{
    lemma_trimmed(lead, middle, trail);
    if middle.len() > 0 {
        let i = choose|i: int|
            0 <= i < middle.len() - 1 && #[trigger] middle[i] == '/' && middle[i + 1] == '/';
        let slashed = seq!['/'] + middle;
        assert(slashed[i + 1] == '/' && slashed[i + 1 + 1] == '/');
    }
}

proof fn lemma_split(marks: Seq<Mark>, d: int, end: int)
    requires
        0 <= d < end - 1,
        end <= marks.len() <= end + 1,
        marks[0] == Mark::Slash,
        marks[d] == Mark::Slash,
        forall|i: int| d < i < end ==> #[trigger] marks[i] != Mark::Slash,
        !(end == d + 2 && marks[d + 1] == Mark::Dot),
        marks.len() == end + 1 ==> marks[end] == Mark::Slash,
        d > 0 ==> d > 1 && marks[d - 1] != Mark::Slash && !(marks[d - 1] == Mark::Dot && marks[d
            - 2] == Mark::Slash),
    ensures
        last_piece(marks) == Some((d + 1, end)),
        parent_end(marks) == Some(
            if d == 0 {
                1
            } else {
                d
            },
        ),
{
    assert(body_start(marks) == 1);
    lemma_piece_behind_slash(marks, d + 1, end);
    assert(!blank_piece(marks, end));
    assert(body_end(marks, end) == end);
    if marks.len() == end + 1 {
        assert(piece_start(marks, end + 1) == end + 1);
        assert(before_piece(marks, end + 1) == end);
        assert(body_end(marks, end + 1) == body_end(marks, end));
    }
    if d == 0 {
        assert(before_piece(marks, end) == 1);
    } else {
        assert(before_piece(marks, end) == d);
        if d > 2 {
            lemma_piece_start(marks, d - 1);
        }
        assert(piece_start(marks, d) == piece_start(marks, d - 1));
        assert(!blank_piece(marks, d));
        assert(body_end(marks, d) == d);
    }
}

/// A name behind a directory and a slash, with one more slash behind it or not.
pub open spec fn entry_path(dir: Seq<char>, name: Seq<char>, slash_behind: bool) -> Seq<char> {
    dir + seq!['/'] + name + (if slash_behind {
        seq!['/']
    } else {
        Seq::empty()
    })
}

pub proof fn lemma_entry(dir: Seq<char>, name: Seq<char>, slash_behind: bool)
    requires
        dir.len() == 0 || is_directory(dir),
        is_plain_name(name),
    ensures
        remote_name(entry_path(dir, name, slash_behind)) == Some(name),
        remote_parent(entry_path(dir, name, slash_behind)) == (if dir.len() == 0 {
            seq!['/']
        } else {
            dir
        }),
{
    let path = entry_path(dir, name, slash_behind);
    let marks = char_marks(path);
    let d = dir.len() as int;
    let end = d + 1 + name.len();
    reveal_strlit("/");
    assert(path[d] == '/');
    if d > 0 {
        assert(path[0] == dir[0]);
        assert(path[d - 1] == dir.last());
        assert(path[d - 2] == dir[d - 2]);
    }
    assert forall|i: int| d < i < end implies #[trigger] marks[i] != Mark::Slash by {
        assert(path[i] == name[i - d - 1]);
        assert(name.contains(name[i - d - 1]));
    }
    if end == d + 2 {
        assert(path[d + 1] == name[0]);
        if name[0] == '.' {
            assert(name =~= seq!['.']);
        }
    }
    if end == d + 3 {
        assert(path[d + 1] == name[0] && path[d + 2] == name[1]);
        if name[0] == '.' && name[1] == '.' {
            assert(name =~= seq!['.', '.']);
        }
    }
    lemma_split(marks, d, end);
    assert(path.subrange(d + 1, end) =~= name);
    if d > 0 {
        assert(path.subrange(0, d) =~= dir);
    } else {
        assert(path.subrange(0, 1) =~= seq!['/']);
    }
    assert("/"@ =~= seq!['/']);
}

/// A file is moved or copied to the directory and under the name that its new path ends in, wherever
/// it is: what is sent names the old path, that directory, and that name.
pub proof fn law_relocation_names_both_ends(
    dir: Seq<char>,
    name: Seq<char>,
    slash_behind: bool,
    from: &str,
    to: &str,
    result: Result<String, Error>,
)
    requires
        call_ensures(move_like_payload, (from, to), result),
        is_normal(from@),
        is_normal(to@),
        dir.len() == 0 || is_directory(dir),
        is_plain_name(name),
        to@ == entry_path(dir, name, slash_behind),
    ensures
        result is Ok,
        result->Ok_0@ == json_array(
            seq![
                json_object(
                    seq![
                        (
                            "dest"@,
                            if dir.len() == 0 {
                                seq!['/']
                            } else {
                                dir
                            },
                        ),
                        ("newname"@, name),
                        ("path"@, from@),
                    ],
                ),
            ],
        ),
{
    lemma_normalized(from@);
    lemma_normalized(to@);
    lemma_entry(dir, name, slash_behind);
}

/// Moving and copying differ in what the platform is told to do, and in nothing else.
pub proof fn law_move_and_copy(
    client: PanClient,
    from: &str,
    to: &str,
    payload: Result<String, Error>,
    moved: Result<FileJob, Error>,
    copied: Result<FileJob, Error>,
)
    requires
        call_ensures(move_like_payload, (from, to), payload),
        call_ensures(PanClient::move_path, (&client, from, to), moved),
        call_ensures(PanClient::copy_path, (&client, from, to), copied),
    ensures
        match payload {
            Ok(filelist) => {
                &&& moved is Ok && copied is Ok
                &&& moved->Ok_0.opera@ == "move"@ && moved->Ok_0.filelist@ == filelist@
                &&& copied->Ok_0.opera@ == "copy"@ && copied->Ok_0.filelist@ == filelist@
            },
            Err(error) => {
                &&& moved is Err && copied is Err
                &&& moved->Err_0@ == error@ && copied->Err_0@ == error@
            },
        },
{
}

/// A path is removed by naming it, normalized, and it alone, in a job that deletes.
pub proof fn law_delete_names_the_path(
    client: PanClient,
    path: &str,
    normalized: Result<String, Error>,
    result: Result<FileJob, Error>,
)
    requires
        call_ensures(normalize_remote_path, (path,), normalized),
        call_ensures(PanClient::delete, (&client, path), result),
        normalized is Ok,
    ensures
        result is Ok,
        result->Ok_0.opera@ == "delete"@,
        result->Ok_0.filelist@ == json_strings(seq![normalized->Ok_0@]),
{
}

/// A job is sent as it is, to the file API, under the token of the user.
pub proof fn law_job_is_sent_as_it_is(
    client: PanClient,
    job: FileJob,
    access_token: &str,
    request: HttpRequest,
)
    requires
        call_ensures(PanClient::filemanager, (&client, &job, access_token), request),
    ensures
        request@.method == Method::Post,
        request@.url == "https://pan.baidu.com/rest/2.0/xpan/file"@,
        request@.query == seq![
            ("method"@, "filemanager"@),
            ("opera"@, job.opera@),
            ("async"@, "0"@),
            ("access_token"@, access_token@),
        ],
        request@.form == seq![("filelist"@, job.filelist@)],
        request@.range is None,
{
}

/// A directory is listed and made by naming it, normalized, under the token of the user.
pub proof fn law_directories_are_named(
    client: PanClient,
    path: &str,
    normalized: Result<String, Error>,
    access_token: &str,
    listed: Result<HttpRequest, Error>,
    made: Result<HttpRequest, Error>,
)
    requires
        call_ensures(normalize_remote_path, (path,), normalized),
        call_ensures(PanClient::list_dir, (&client, path, access_token), listed),
        call_ensures(PanClient::mkdir, (&client, path, access_token), made),
        normalized is Ok,
    ensures
        listed is Ok,
        listed->Ok_0@.method == Method::Get,
        listed->Ok_0@.url == "https://pan.baidu.com/rest/2.0/xpan/file"@,
        listed->Ok_0@.query == seq![
            ("method"@, "list"@),
            ("dir"@, normalized->Ok_0@),
            ("access_token"@, access_token@),
        ],
        listed->Ok_0@.form.len() == 0,
        listed->Ok_0@.range is None,
        made is Ok,
        made->Ok_0@.method == Method::Post,
        made->Ok_0@.url == "https://pan.baidu.com/rest/2.0/xpan/file"@,
        made->Ok_0@.query == seq![("method"@, "create"@), ("access_token"@, access_token@)],
        made->Ok_0@.form == seq![
            ("path"@, normalized->Ok_0@),
            ("isdir"@, "1"@),
            ("size"@, "0"@),
            ("block_list"@, "[]"@),
        ],
        made->Ok_0@.range is None,
{
}

/// Whatever is done to a path that is refused is refused for the same reason.
pub proof fn law_refused_paths_reach_nothing(
    client: PanClient,
    path: &str,
    access_token: &str,
    refused: Result<String, Error>,
    listed: Result<HttpRequest, Error>,
    made: Result<HttpRequest, Error>,
    deleted: Result<FileJob, Error>,
)
    requires
        call_ensures(normalize_remote_path, (path,), refused),
        refused is Err,
        call_ensures(PanClient::list_dir, (&client, path, access_token), listed),
        call_ensures(PanClient::mkdir, (&client, path, access_token), made),
        call_ensures(PanClient::delete, (&client, path), deleted),
    ensures
        listed is Err && listed->Err_0@ == refused->Err_0@,
        made is Err && made->Err_0@ == refused->Err_0@,
        deleted is Err && deleted->Err_0@ == refused->Err_0@,
{
}

/// An entry is looked for in the directory that its path names, under the name that its path ends in.
pub proof fn law_entry_is_looked_for_in_its_directory(
    dir: Seq<char>,
    name: Seq<char>,
    path: &str,
    parent: String,
    lookup: Result<EntryLookup, Error>,
)
    requires
        dir.len() == 0 || is_directory(dir),
        is_plain_name(name),
        path@ == dir + seq!['/'] + name,
        call_ensures(parent_remote_dir, (path,), parent),
        call_ensures(resolve_entry_by_path, (path,), lookup),
    ensures
        parent@ == (if dir.len() == 0 {
            seq!['/']
        } else {
            dir
        }),
        lookup is Ok,
        lookup->Ok_0.remote_path@ == path@,
        lookup->Ok_0.parent@ == parent@,
        lookup->Ok_0.name@ == name,
{
    lemma_entry(dir, name, false);
    assert(entry_path(dir, name, false) =~= path@);
}

/// The entry is the one that is looked for: it has the path, or the name.
pub open spec fn is_sought(entry: RemoteEntry, remote_path: Seq<char>, name: Seq<char>) -> bool {
    entry.path@ == remote_path || entry.server_filename@ == name
}

pub proof fn lemma_first_match(entries: Seq<RemoteEntry>, remote_path: Seq<char>, name: Seq<char>)
    ensures
        match first_match(entries, remote_path, name) {
            Some(entry) => exists|i: int|
                {
                    &&& 0 <= i < entries.len()
                    &&& #[trigger] entries[i] == entry
                    &&& is_sought(entries[i], remote_path, name)
                    &&& forall|j: int|
                        0 <= j < i ==> !is_sought(#[trigger] entries[j], remote_path, name)
                },
            None => forall|j: int|
                0 <= j < entries.len() ==> !is_sought(#[trigger] entries[j], remote_path, name),
        },
    decreases entries.len(),
{
    if entries.len() > 0 {
        let rest = entries.drop_first();
        lemma_first_match(rest, remote_path, name);
        if is_sought(entries[0], remote_path, name) {
            assert(entries[0] == entries[0]);
        } else {
            match first_match(rest, remote_path, name) {
                Some(entry) => {
                    let i = choose|i: int|
                        {
                            &&& 0 <= i < rest.len()
                            &&& #[trigger] rest[i] == entry
                            &&& is_sought(rest[i], remote_path, name)
                            &&& forall|j: int|
                                0 <= j < i ==> !is_sought(#[trigger] rest[j], remote_path, name)
                        };
                    assert(entries[i + 1] == rest[i]);
                    assert forall|j: int| 0 <= j < i + 1 implies !is_sought(
                        #[trigger] entries[j],
                        remote_path,
                        name,
                    ) by {
                        if j > 0 {
                            assert(entries[j] == rest[j - 1]);
                        }
                    }
                },
                None => {
                    assert forall|j: int| 0 <= j < entries.len() implies !is_sought(
                        #[trigger] entries[j],
                        remote_path,
                        name,
                    ) by {
                        if j > 0 {
                            assert(entries[j] == rest[j - 1]);
                        }
                    }
                },
            }
        }
    }
}

/// Of the entries of a directory the first that has the path or the name is the one, and where none
/// has, the path is reported as not found.
pub proof fn law_first_entry_sought_is_found(
    lookup: EntryLookup,
    entries: Vec<RemoteEntry>,
    result: Result<RemoteEntry, Error>,
)
    requires
        call_ensures(EntryLookup::find, (&lookup, entries), result),
    ensures
        match result {
            Ok(entry) => exists|i: int|
                {
                    &&& 0 <= i < entries@.len()
                    &&& #[trigger] entries@[i] == entry
                    &&& is_sought(entries@[i], lookup.remote_path@, lookup.name@)
                    &&& forall|j: int|
                        0 <= j < i ==> !is_sought(
                            #[trigger] entries@[j],
                            lookup.remote_path@,
                            lookup.name@,
                        )
                },
            Err(error) => {
                &&& error@ == ErrorView::Api("remote path not found: "@ + lookup.remote_path@)
                &&& forall|j: int|
                    0 <= j < entries@.len() ==> !is_sought(
                        #[trigger] entries@[j],
                        lookup.remote_path@,
                        lookup.name@,
                    )
            },
        },
{
    lemma_first_match(entries@, lookup.remote_path@, lookup.name@);
}

// What a user writes.

/// A remote path that a user writes, with white space around it and slashes before it, stands below
/// the directory of the application.
pub proof fn law_user_path_is_below_the_application(
    credentials: AppCredentials,
    lead: Seq<char>,
    slashes: Seq<char>,
    below: Seq<char>,
    trail: Seq<char>,
    path: &str,
    result: Result<String, Error>,
)
    requires
        call_ensures(resolve_remote_path, (&credentials, path), result),
        path@ == lead + (slashes + below) + trail,
        is_blank(lead),
        is_slashes(slashes),
        is_blank(trail),
        below.len() > 0,
        below[0] != '/',
        is_trim(slashes + below),
        slashes.len() == 1 ==> !"apps/"@.is_prefix_of(below),
        below != "apps/"@ + credentials.app_name@,
        !("apps/"@ + credentials.app_name@ + "/"@).is_prefix_of(below),
    ensures
        result matches Ok(remote) && remote@ == "/apps/"@ + credentials.app_name@ + "/"@ + below,
{
    lemma_resolved(credentials.app_name@, lead, slashes, below, trail, path@);
}

proof fn lemma_resolved(
    app_name: Seq<char>,
    lead: Seq<char>,
    slashes: Seq<char>,
    below: Seq<char>,
    trail: Seq<char>,
    path: Seq<char>,
)
    requires
        path == lead + (slashes + below) + trail,
        is_blank(lead),
        is_slashes(slashes),
        is_blank(trail),
        below.len() > 0,
        below[0] != '/',
        is_trim(slashes + below),
        slashes.len() == 1 ==> !"apps/"@.is_prefix_of(below),
        below != "apps/"@ + app_name,
        !("apps/"@ + app_name + "/"@).is_prefix_of(below),
    ensures
        trimmed(path) == slashes + below,
        resolved(app_name, path) == Ok::<Seq<char>, ErrorView>(
            "/apps/"@ + app_name + "/"@ + below,
        ),
{
    let text = slashes + below;
    lemma_trimmed(lead, text, trail);
    lemma_leading_slashes(slashes, below);
    reveal_strlit("/");
    reveal_strlit("apps/");
    reveal_strlit("/apps/");
    assert(text[slashes.len() as int] == below[0]);
    if "/apps/"@.is_prefix_of(text) {
        let head = text.subrange(0, 6);
        assert(head[0] == '/');
        assert(head[1] == 'a');
        if slashes.len() == 0 {
            assert(text[0] == below[0]);
        } else if slashes.len() > 1 {
            assert(text[1] == slashes[1]);
        } else {
            assert(below.subrange(0, 5) =~= head.subrange(1, 6));
            assert("apps/"@ =~= "/apps/"@.subrange(1, 6));
        }
    }
    if text == "/"@ {
        assert(text[0] == '/');
        assert(slashes.len() == 0);
        assert(text[0] == below[0]);
    }
}

/// A single slash stands for the directory of the application itself.
pub proof fn law_slash_is_the_application(
    credentials: AppCredentials,
    lead: Seq<char>,
    trail: Seq<char>,
    path: &str,
    result: Result<String, Error>,
)
    requires
        call_ensures(resolve_remote_path, (&credentials, path), result),
        path@ == lead + seq!['/'] + trail,
        is_blank(lead),
        is_blank(trail),
    ensures
        result matches Ok(remote) && remote@ == "/apps/"@ + credentials.app_name@,
{
    lemma_trimmed(lead, seq!['/'], trail);
    reveal_strlit("/");
    assert("/"@ =~= seq!['/']);
}

/// More than one slash, and nothing else, stand for the directory of the application with a slash
/// behind it.
pub proof fn law_slashes_alone(
    credentials: AppCredentials,
    lead: Seq<char>,
    slashes: Seq<char>,
    trail: Seq<char>,
    path: &str,
    result: Result<String, Error>,
)
    requires
        call_ensures(resolve_remote_path, (&credentials, path), result),
        path@ == lead + slashes + trail,
        is_blank(lead),
        is_slashes(slashes),
        slashes.len() > 1,
        is_blank(trail),
    ensures
        result matches Ok(remote) && remote@ == "/apps/"@ + credentials.app_name@ + "/"@,
{
    let nothing = Seq::<char>::empty();
    reveal_strlit("/");
    reveal_strlit("apps/");
    reveal_strlit("/apps/");
    assert(slashes[0] == '/' && slashes[1] == '/' && slashes[slashes.len() - 1] == '/');
    lemma_trimmed(lead, slashes, trail);
    lemma_leading_slashes(slashes, nothing);
    assert(slashes + nothing =~= slashes);
    assert("/apps/"@ + credentials.app_name@ + "/"@ + nothing =~= "/apps/"@ + credentials.app_name@
        + "/"@);
    if "/apps/"@.is_prefix_of(slashes) {
        assert(slashes.subrange(0, 6)[1] == 'a');
    }
}

/// A blank path is refused as it is, and one that names `/apps/`, or the directory of the application
/// behind any number of slashes, with a word on where commands act.
pub proof fn law_user_path_is_refused(
    credentials: AppCredentials,
    lead: Seq<char>,
    slashes: Seq<char>,
    rest: Seq<char>,
    trail: Seq<char>,
    path: &str,
    result: Result<String, Error>,
)
    requires
        call_ensures(resolve_remote_path, (&credentials, path), result),
        is_blank(lead),
        is_slashes(slashes),
        is_blank(trail),
        path@ == lead + (slashes + rest) + trail,
        is_trim(slashes + rest),
        rest.len() > 0 ==> rest[0] != '/',
        ({
            ||| slashes.len() == 0 && rest.len() == 0
            ||| slashes.len() == 1 && "apps/"@.is_prefix_of(rest)
            ||| rest == "apps/"@ + credentials.app_name@
            ||| ("apps/"@ + credentials.app_name@ + "/"@).is_prefix_of(rest)
        }),
    ensures
        result is Err,
        result->Err_0@ == ErrorView::InvalidRemotePath(
            if rest.len() == 0 {
                path@
            } else {
                path@
                    + " (do not include the /apps/<app_name> prefix; commands are scoped to "@
                    + ("/apps/"@ + credentials.app_name@) + ")"@
            },
        ),
{
    let text = slashes + rest;
    lemma_trimmed(lead, text, trail);
    lemma_leading_slashes(slashes, rest);
    reveal_strlit("/");
    reveal_strlit("apps/");
    reveal_strlit("/apps/");
    if slashes.len() == 1 && "apps/"@.is_prefix_of(rest) {
        assert(text.subrange(0, 6) =~= "/apps/"@) by {
            assert(rest.subrange(0, 5) == "apps/"@);
            assert forall|i: int| 0 <= i < 6 implies text.subrange(0, 6)[i] == "/apps/"@[i] by {
                if i > 0 {
                    assert(text[i] == rest.subrange(0, 5)[i - 1]);
                }
            }
        }
    }
    if rest.len() > 0 {
        assert(text[slashes.len() as int] == rest[0]);
        if text == "/"@ {
            assert(slashes.len() == 0);
            assert(text[0] == rest[0]);
        }
    }
}

/// An upload to a path goes where the path leads, and one to a path with a slash behind it goes below
/// it, under the name of the local file; where that has none that is text, the upload is refused.
pub proof fn law_upload_goes_where_it_is_sent(
    credentials: AppCredentials,
    local: LocalPath,
    name: Option<String>,
    lead: Seq<char>,
    middle: Seq<char>,
    trail: Seq<char>,
    remote: &str,
    resolved: Result<String, Error>,
    directory: Seq<char>,
    slashes: Seq<char>,
    result: Result<String, Error>,
)
    requires
        call_ensures(resolve_upload_remote_path, (&credentials, &local, remote), result),
        call_ensures(resolve_remote_path, (&credentials, remote), resolved),
        call_ensures(LocalPath::file_name, (&local,), name),
        remote@ == lead + middle + trail,
        is_blank(lead),
        is_trim(middle),
        is_blank(trail),
        resolved matches Ok(path) ==> path@ == directory + slashes,
        is_slashes(slashes),
        directory.len() > 0 ==> directory.last() != '/',
    ensures
        match resolved {
            Err(error) => result is Err && result->Err_0@ == error@,
            Ok(path) => if middle.len() > 0 && middle.last() == '/' {
                match name {
                    Some(text) => result is Ok && result->Ok_0@ == directory + "/"@ + text@,
                    None => result is Err && result->Err_0@ == ErrorView::InvalidRemotePath(
                        lossy_text(local@),
                    ),
                }
            } else {
                result is Ok && result->Ok_0@ == path@
            },
        },
{
    lemma_trimmed(lead, middle, trail);
    if resolved is Ok {
        lemma_trailing_slashes(directory, slashes);
    }
}

// Tasks.

/// What a task comes to is of its kind, with each remote path resolved in its role and everything else
/// as it was asked for. Where a path is refused, so is the task, for the first path that is.
pub proof fn law_task_keeps_its_roles(
    credentials: AppCredentials,
    task: BatchTask,
    result: Result<Action, Error>,
    first: &str,
    first_resolved: Result<String, Error>,
    second: &str,
    second_resolved: Result<String, Error>,
)
    requires
        call_ensures(plan_task, (&credentials, &task), result),
        call_ensures(resolve_remote_path, (&credentials, first), first_resolved),
        call_ensures(resolve_remote_path, (&credentials, second), second_resolved),
        match task {
            BatchTask::Mkdir { path } => path@ == first@,
            BatchTask::Rm { path } => path@ == first@,
            BatchTask::Mv { from, to } => from@ == first@ && to@ == second@,
            BatchTask::Cp { from, to } => from@ == first@ && to@ == second@,
            BatchTask::Upload { .. } => false,
            BatchTask::Download { remote, .. } => remote@ == first@,
        },
    ensures
        match result {
            Ok(action) => first_resolved is Ok && match (task, action) {
                (BatchTask::Mkdir { .. }, Action::Mkdir { path }) => path@
                    == first_resolved->Ok_0@,
                (BatchTask::Rm { .. }, Action::Rm { path }) => path@ == first_resolved->Ok_0@,
                (BatchTask::Mv { .. }, Action::Mv { from, to }) => second_resolved is Ok && from@
                    == first_resolved->Ok_0@ && to@ == second_resolved->Ok_0@,
                (BatchTask::Cp { .. }, Action::Cp { from, to }) => second_resolved is Ok && from@
                    == first_resolved->Ok_0@ && to@ == second_resolved->Ok_0@,
                (
                    BatchTask::Download { local: asked, decrypt: decrypted, force: forced, .. },
                    Action::Download { remote, local, decrypt, force },
                ) => remote@ == first_resolved->Ok_0@ && local@ == asked@ && decrypt == decrypted
                    && force == forced,
                _ => false,
            },
            Err(error) => if first_resolved is Err {
                error@ == first_resolved->Err_0@
            } else {
                (task is Mv || task is Cp) && second_resolved is Err && error@
                    == second_resolved->Err_0@
            },
        },
{
}

/// What an upload task comes to is an upload of the same local file, in the same way, to the place
/// that its remote path stands for.
pub proof fn law_upload_task_keeps_its_roles(
    credentials: AppCredentials,
    local: LocalPath,
    remote: String,
    encrypt: bool,
    force: bool,
    remote_text: &str,
    remote_resolved: Result<String, Error>,
    result: Result<Action, Error>,
)
    requires
        remote@ == remote_text@,
        call_ensures(
            plan_task,
            (&credentials, &(BatchTask::Upload { local, remote, encrypt, force })),
            result,
        ),
        call_ensures(
            resolve_upload_remote_path,
            (&credentials, &local, remote_text),
            remote_resolved,
        ),
    ensures
        match (result, remote_resolved) {
            (
                Ok(Action::Upload { local: file, remote: path, encrypt: encrypted, force: forced }),
                Ok(place),
            ) => file@ == local@ && path@ == place@ && encrypted == encrypt && forced == force,
            (Err(error), Err(reason)) => error@ == reason@,
            _ => false,
        },
{
}

/// A command is the task of its kind, with every field in its role.
pub proof fn law_command_keeps_its_roles(command: Commands, result: Option<BatchTask>)
    requires
        call_ensures(Commands::into_task, (command,), result),
    ensures
        match (command, result) {
            (Commands::Mkdir { path }, Some(BatchTask::Mkdir { path: p })) => p == path,
            (Commands::Rm { path }, Some(BatchTask::Rm { path: p })) => p == path,
            (Commands::Mv { from, to }, Some(BatchTask::Mv { from: f, to: t })) => f == from && t
                == to,
            (Commands::Cp { from, to }, Some(BatchTask::Cp { from: f, to: t })) => f == from && t
                == to,
            (
                Commands::Upload { local, remote, encrypt, force },
                Some(BatchTask::Upload { local: l, remote: r, encrypt: e, force: f }),
            ) => l == local && r == remote && e == encrypt && f == force,
            (
                Commands::Download { remote, local, decrypt, force },
                Some(BatchTask::Download { remote: r, local: l, decrypt: d, force: f }),
            ) => r == remote && l == local && d == decrypt && f == force,
            (Commands::Login, None) => true,
            (Commands::Logout, None) => true,
            (Commands::Whoami, None) => true,
            (Commands::Ls { .. }, None) => true,
            (Commands::Batch { .. }, None) => true,
            _ => false,
        },
{
}

/// What is shown of an action that has been done names its paths in their roles.
pub proof fn law_done_line_keeps_the_roles(action: Action, result: Option<String>)
    requires
        call_ensures(Action::done_line, (&action,), result),
    ensures
        match action {
            Action::Mkdir { path } => result matches Some(text) && text@ == "created "@ + path@,
            Action::Rm { path } => result matches Some(text) && text@ == "removed "@ + path@,
            Action::Mv { from, to } => result matches Some(text) && text@ == "moved "@ + from@
                + " -> "@ + to@,
            Action::Cp { from, to } => result matches Some(text) && text@ == "copied "@ + from@
                + " -> "@ + to@,
            _ => result is None,
        },
{
}

} // verus!
