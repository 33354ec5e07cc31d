//! What holds of the library as a whole.
pub mod components;
pub mod download;
pub mod encryption;
pub mod local;
pub mod login;
pub mod remote;
pub mod reports;
pub mod texts;
pub mod upload;

use vstd::prelude::*;
use vstd::utf8::{
    decode_utf8_encode_utf8, encode_scalar, encode_utf8, encode_utf8_decode_utf8,
    encode_utf8_valid_utf8, is_ascii_chars, is_ascii_chars_encode_utf8,
};

use crate::api::{
    all_servers, block_len, block_start, blocks_error, blocks_len, create_request_of,
    duplicate_policy, first_https, normalized_remote, part_at, precreate_request, refresh_outcome,
    required_parts, rtype_of, server_names, DownloadStart, LocateUploadResponse, UploadPlanView,
};
use crate::cli::{
    names_app_root, names_directory, relative, resolved, resolved_upload, scoped_error,
};
use crate::config::{
    app_root_of, configured, credentials_from, masked, normalized, replace_steps, token_loaded,
    AppCredentialsView, StoredToken,
};
use crate::crypto::{
    crypto_error, derived_key, lemma_v2_header, magic_v1, magic_v2, prepend, v1_opened, v2_body,
    v2_header, v2_opened, SALT_LEN,
};
use crate::error::ErrorView;
use crate::files::FileStepView;
use crate::http::HttpRequestView;
use crate::path::{
    before_piece, blank_piece, body_end, body_start, byte_marks, joined, lemma_body_end,
    lemma_piece_start, name_of, name_range, parent_of, piece_start, stem_end, text_name_of,
    with_extension, Mark,
};
use crate::text::{
    drop_leading, drop_trailing, has_double_slash, is_white_space, slash, trimmed, white,
};
use crate::transfer::{
    block_count, block_digests, cache_path_of, cleanup_steps, compatible, downloaded_content,
    finalize_steps, is_plain_key, kept_uploadid, prepare_steps, prepared_download, resumable,
    sidecar, state_path_of, upload_source, PreparedDownloadView, Sidecars, UploadResumeStateView,
    UploadSourceView,
};

verus! {

// Text.

proof fn lemma_drop_leading_suffix(text: Seq<char>, drop: spec_fn(char) -> bool)
    ensures
        drop_leading(text, drop).len() <= text.len(),
        drop_leading(text, drop).len() > 0 ==> !drop(drop_leading(text, drop)[0]),
        drop_leading(text, drop).len() > 0 ==> drop_leading(text, drop).last() == text.last(),
    decreases text.len(),
{
    if text.len() > 0 && drop(text[0]) {
        lemma_drop_leading_suffix(text.drop_first(), drop);
    }
}

proof fn lemma_drop_trailing_prefix(text: Seq<char>, drop: spec_fn(char) -> bool)
    ensures
        drop_trailing(text, drop).is_prefix_of(text),
        drop_trailing(text, drop).len() > 0 ==> !drop(drop_trailing(text, drop).last()),
    decreases text.len(),
{
    if text.len() > 0 && drop(text.last()) {
        lemma_drop_trailing_prefix(text.drop_last(), drop);
        let kept = drop_trailing(text, drop);
        assert(kept =~= text.subrange(0, kept.len() as int));
    } else {
        assert(text =~= text.subrange(0, text.len() as int));
    }
}

/// Trimming leaves no white space at either end.
pub proof fn law_trimmed_ends(text: Seq<char>)
    ensures
        trimmed(text).len() > 0 ==> !is_white_space(trimmed(text)[0]) && !is_white_space(
            trimmed(text).last(),
        ),
{
    let tail = drop_leading(text, white());
    lemma_drop_leading_suffix(text, white());
    lemma_drop_trailing_prefix(tail, white());
    if trimmed(text).len() > 0 {
        assert(trimmed(text)[0] == tail.subrange(0, trimmed(text).len() as int)[0]);
    }
}

/// Trimming changes nothing where there is no white space at either end.
pub proof fn law_trimmed_keeps(text: Seq<char>)
    requires
        text.len() > 0 ==> !is_white_space(text[0]) && !is_white_space(text.last()),
    ensures
        trimmed(text) == text,
{
}

// Remote paths.

/// A normalized path is absolute and has no empty component, and to normalize it again changes
/// nothing.
pub proof fn law_normalize_is_idempotent(path: Seq<char>, normalized: Seq<char>)
    requires
        normalized_remote(path) == Ok::<Seq<char>, ErrorView>(normalized),
    ensures
        normalized.len() > 0 && normalized[0] == '/',
        !has_double_slash(normalized),
        normalized_remote(normalized) == Ok::<Seq<char>, ErrorView>(normalized),
{
    law_trimmed_ends(path);
    assert(normalized.last() == trimmed(path).last());
    law_trimmed_keeps(normalized);
}

/// The text of `path` is that of the root of the application, or begins with it and a slash. What
/// components follow is left open: `..` counts as one like any other.
pub open spec fn begins_with_app_root(app_name: Seq<char>, path: Seq<char>) -> bool {
    path == app_root_of(app_name) || (app_root_of(app_name) + "/"@).is_prefix_of(path)
}

/// Whatever path a user writes, the path of a command begins with the root of the application.
pub proof fn law_commands_begin_with_the_app_root(
    app_name: Seq<char>,
    path: Seq<char>,
    remote: Seq<char>,
)
    requires
        resolved(app_name, path) == Ok::<Seq<char>, ErrorView>(remote),
    ensures
        begins_with_app_root(app_name, remote),
{
    let below = app_root_of(app_name) + "/"@;
    if remote != app_root_of(app_name) {
        assert(remote == below + relative(path));
        assert(remote.subrange(0, below.len() as int) =~= below);
    }
}

/// A path that begins with `/apps/`, or that names the directory of the application behind any
/// number of slashes, is refused.
pub proof fn law_app_prefix_is_refused(app_name: Seq<char>, path: Seq<char>)
    requires
        names_app_root(app_name, path),
    ensures
        resolved(app_name, path) == Err::<Seq<char>, ErrorView>(scoped_error(app_name, path)),
{
    let text = trimmed(path);
    reveal_strlit("/");
    reveal_strlit("apps/");
    reveal_strlit("/apps/");
    if "/apps/"@.is_prefix_of(text) {
        assert(text.subrange(0, 6)[1] == 'a');
    } else {
        lemma_drop_leading_suffix(text, slash());
    }
    if text == "/"@ {
        assert(drop_leading(text.drop_first(), slash()).len() == 0);
    }
}

/// A slash before a path changes nothing, unless the path is one slash or begins with `apps/`.
pub proof fn law_leading_slash_changes_nothing(app_name: Seq<char>, path: Seq<char>)
    requires
        path.len() > 0,
        trimmed(path) == path,
        path != "/"@,
        !"apps/"@.is_prefix_of(relative(path)),
    ensures
        resolved(app_name, seq!['/'] + path) == resolved(app_name, path),
{
    let slashed = seq!['/'] + path;
    let prefix = "apps/"@ + app_name;
    reveal_strlit("/");
    reveal_strlit("apps/");
    reveal_strlit("/apps/");
    law_trimmed_ends(path);
    law_trimmed_keeps(slashed);
    assert(slashed.drop_first() =~= path);
    assert(slashed.len() > 1);
    if "/apps/"@.is_prefix_of(path) {
        lemma_app_prefix(path);
    }
    if "/apps/"@.is_prefix_of(slashed) {
        lemma_app_prefix(slashed);
    }
    assert(prefix.subrange(0, 5) =~= "apps/"@);
    if (prefix + "/"@).is_prefix_of(relative(path)) {
        assert(relative(path).subrange(0, 5) =~= (prefix + "/"@).subrange(0, 5));
        assert((prefix + "/"@).subrange(0, 5) =~= "apps/"@);
    }
}

/// A text that begins with `/apps/` begins with `apps/` behind its leading slashes.
proof fn lemma_app_prefix(text: Seq<char>)
    requires
        "/apps/"@.is_prefix_of(text),
    ensures
        "apps/"@.is_prefix_of(drop_leading(text, slash())),
{
    reveal_strlit("apps/");
    reveal_strlit("/apps/");
    assert(text.subrange(0, 6)[1] == 'a');
    assert(text.subrange(0, 6)[0] == '/');
    let tail = text.drop_first();
    assert(tail.subrange(0, 5) =~= text.subrange(0, 6).drop_first());
    assert("apps/"@ =~= "/apps/"@.drop_first());
    assert(drop_leading(text, slash()) == drop_leading(tail, slash()));
}

/// What a command resolves to is sent as it is, or refused for an empty component: the platform is
/// never asked for another path.
pub proof fn law_resolved_is_sent_as_is(app_name: Seq<char>, path: Seq<char>, remote: Seq<char>)
    requires
        app_name.len() > 0,
        trimmed(app_name) == app_name,
        resolved(app_name, path) == Ok::<Seq<char>, ErrorView>(remote),
    ensures
        normalized_remote(remote) == (if has_double_slash(remote) {
            Err::<Seq<char>, ErrorView>(ErrorView::InvalidRemotePath(remote))
        } else {
            Ok(remote)
        }),
{
    reveal_strlit("/");
    reveal_strlit("/apps/");
    law_trimmed_ends(app_name);
    law_trimmed_ends(path);
    lemma_drop_leading_suffix(trimmed(path), slash());
    assert(remote[0] == '/');
    if remote == app_root_of(app_name) {
        assert(remote.last() == app_name.last());
    } else if relative(path).len() > 0 {
        assert(remote.last() == relative(path).last());
    } else {
        assert(remote.last() == '/');
    }
    law_trimmed_keeps(remote);
}

/// Where the remote side of an upload stands for a directory, the file keeps its name behind it, and
/// the path begins with the root of the application.
pub proof fn law_upload_keeps_the_name(
    app_name: Seq<char>,
    local: Seq<u8>,
    remote: Seq<char>,
    name: Seq<char>,
)
    requires
        app_name.len() > 0,
        !app_name.contains('/'),
        names_directory(remote),
        resolved(app_name, remote) is Ok,
        text_name_of(local) == Some(name),
    ensures
        resolved_upload(app_name, local, remote) is Ok,
        begins_with_app_root(app_name, resolved_upload(app_name, local, remote)->Ok_0),
        ("/"@ + name).is_suffix_of(resolved_upload(app_name, local, remote)->Ok_0),
{
    let root = app_root_of(app_name);
    let path = resolved(app_name, remote)->Ok_0;
    let kept = drop_trailing(path, slash());
    let result = kept + "/"@ + name;
    reveal_strlit("/");
    reveal_strlit("/apps/");
    assert(result.subrange(kept.len() as int, result.len() as int) =~= "/"@ + name);
    law_commands_begin_with_the_app_root(app_name, remote, path);
    assert(app_name.contains(app_name.last()));
    assert(root.last() == app_name.last());
    let rest = path.subrange(root.len() as int, path.len() as int);
    if path != root {
        assert(path.subrange(0, (root + "/"@).len() as int).subrange(0, root.len() as int) =~= root);
    }
    assert(path =~= root + rest);
    lemma_drop_trailing_keeps(root, rest, slash());
    let below = kept + "/"@;
    lemma_drop_trailing_prefix(path, slash());
    assert(result.subrange(0, root.len() as int) =~= root);
    if kept.len() == root.len() {
        assert(result.subrange(0, (root + "/"@).len() as int) =~= root + "/"@);
    } else {
        assert(path != root);
        assert(path[root.len() as int] == (root + "/"@)[root.len() as int]);
        assert(kept =~= path.subrange(0, kept.len() as int));
        assert(result.subrange(0, (root + "/"@).len() as int) =~= root + "/"@);
    }
}

proof fn lemma_drop_trailing_keeps(head: Seq<char>, tail: Seq<char>, drop: spec_fn(char) -> bool)
    requires
        head.len() > 0,
        !drop(head.last()),
    ensures
        drop_trailing(head + tail, drop) == head + drop_trailing(tail, drop),
    decreases tail.len(),
{
    if tail.len() == 0 {
        assert(head + tail =~= head);
        assert(head + drop_trailing(tail, drop) =~= head);
    } else if drop(tail.last()) {
        assert((head + tail).drop_last() =~= head + tail.drop_last());
        assert((head + tail).last() == tail.last());
        lemma_drop_trailing_keeps(head, tail.drop_last(), drop);
    } else {
        assert((head + tail).last() == tail.last());
    }
}

// Settings.

/// A setting at run time wins over the one that was built in, and that one counts where the other is
/// missing or blank.
pub proof fn law_runtime_overrides_builtin(runtime: Option<Seq<char>>, builtin: Option<Seq<char>>)
    ensures
        runtime is Some && normalized(runtime->0) is Some ==> configured(runtime, builtin)
            == normalized(runtime->0),
        runtime is None || normalized(runtime->0) is None ==> configured(runtime, builtin) == (
        match builtin {
            Some(value) => normalized(value),
            None => None,
        }),
{
}

/// The credentials that settings give have a name that is a single component without white space
/// around it, and no part of them is blank.
pub proof fn law_credentials_are_usable(
    app_key: (Option<Seq<char>>, Option<Seq<char>>),
    app_secret: (Option<Seq<char>>, Option<Seq<char>>),
    app_name: (Option<Seq<char>>, Option<Seq<char>>),
    credentials: AppCredentialsView,
)
    requires
        credentials_from(
            configured(app_key.0, app_key.1),
            configured(app_secret.0, app_secret.1),
            configured(app_name.0, app_name.1),
        ) == Ok::<AppCredentialsView, ErrorView>(credentials),
    ensures
        credentials.app_key.len() > 0,
        credentials.app_secret.len() > 0,
        credentials.app_name.len() > 0,
        !credentials.app_name.contains('/'),
        trimmed(credentials.app_name) == credentials.app_name,
{
    if app_name.0 is Some {
        law_trimmed_ends(app_name.0->0);
    }
    if app_name.1 is Some {
        law_trimmed_ends(app_name.1->0);
    }
    law_trimmed_keeps(credentials.app_name);
}

/// A masked secret tells no more than its first and last four characters, and nothing at all of one
/// of up to eight.
pub proof fn law_mask_hides_the_middle(a: Seq<char>, b: Seq<char>)
    requires
        a.len() <= 8 && b.len() <= 8 || {
            &&& a.len() > 8
            &&& b.len() > 8
            &&& a.subrange(0, 4) == b.subrange(0, 4)
            &&& a.subrange(a.len() - 4, a.len() as int) == b.subrange(b.len() - 4, b.len() as int)
        },
    ensures
        masked(a) == masked(b),
{
}

// Uploads.

/// The server that takes the blocks of an upload is reached over HTTPS, is one of those that the
/// platform names, and stands for backup only where no other is reached over HTTPS.
pub proof fn law_upload_host_is_https(payload: LocateUploadResponse, host: Seq<char>)
    requires
        first_https(all_servers(payload)) == Some(host),
    ensures
        "https://"@.is_prefix_of(host),
        exists|i: int|
            0 <= i < all_servers(payload).len() && host == trimmed(
                #[trigger] all_servers(payload)[i],
            ),
        first_https(server_names(payload.servers@)) is Some ==> first_https(
            server_names(payload.servers@),
        ) == Some(host),
        first_https(server_names(payload.servers@)) is None ==> first_https(
            server_names(payload.bak_servers@),
        ) == Some(host),
{
    let servers = server_names(payload.servers@);
    let backup = server_names(payload.bak_servers@);
    lemma_first_https(all_servers(payload));
    lemma_first_https_concat(servers, backup);
}

proof fn lemma_first_https(servers: Seq<Seq<char>>)
    ensures
        first_https(servers) matches Some(host) ==> "https://"@.is_prefix_of(host) && exists|i: int|
            0 <= i < servers.len() && host == trimmed(#[trigger] servers[i]),
    decreases servers.len(),
{
    if servers.len() > 0 {
        lemma_first_https(servers.drop_first());
        if let Some(host) = first_https(servers.drop_first()) {
            let i = choose|i: int|
                0 <= i < servers.drop_first().len() && host == trimmed(
                    #[trigger] servers.drop_first()[i],
                );
            assert(servers.drop_first()[i] == servers[i + 1]);
        }
    }
}

proof fn lemma_first_https_concat(a: Seq<Seq<char>>, b: Seq<Seq<char>>)
    ensures
        first_https(a + b) == (if first_https(a) is Some {
            first_https(a)
        } else {
            first_https(b)
        }),
    decreases a.len(),
{
    if a.len() == 0 {
        assert(a + b =~= b);
    } else {
        assert((a + b).drop_first() =~= a.drop_first() + b);
        lemma_first_https_concat(a.drop_first(), b);
    }
}

/// The blocks from zero on, as the platform would ask for them.
pub open spec fn all_blocks(count: nat) -> Seq<usize> {
    required_parts(Seq::empty(), count)
}

proof fn lemma_leading_blocks(size: nat, total: nat, count: nat)
    requires
        total == block_count(size),
        total <= usize::MAX,
        count <= total,
    ensures
        blocks_error(size as int, total as int, all_blocks(total).take(count as int)) is None,
        blocks_len(size as int, all_blocks(total).take(count as int)) == (if 4194304 * count < size {
            4194304 * count as int
        } else {
            size as int
        }),
    decreases count,
{
    let blocks = all_blocks(total);
    if count > 0 {
        let shorter = (count - 1) as nat;
        lemma_leading_blocks(size, total, shorter);
        assert(blocks.take(count as int).drop_last() =~= blocks.take(shorter as int));
        assert(blocks.take(count as int).last() == shorter);
    } else {
        assert(blocks.take(0) =~= Seq::<usize>::empty());
    }
}

/// The blocks of a file cover it: there are as many of them as it has digests, each one is within
/// the file, each begins where the one before ends, and together they are as long as the file.
pub proof fn law_blocks_cover_the_file(content: Seq<u8>)
    requires
        block_count(content.len()) <= usize::MAX,
    ensures
        block_digests(content).len() == block_count(content.len()),
        blocks_error(
            content.len() as int,
            block_count(content.len()) as int,
            all_blocks(block_count(content.len())),
        ) is None,
        blocks_len(content.len() as int, all_blocks(block_count(content.len()))) == content.len(),
        forall|i: int|
            0 <= i < block_count(content.len()) - 1 ==> block_start(i + 1) == #[trigger] block_start(
                i,
            ) + block_len(content.len() as int, i),
{
    let total = block_count(content.len());
    lemma_leading_blocks(content.len(), total, total);
    assert(all_blocks(total).take(total as int) =~= all_blocks(total));
}

proof fn lemma_blocks_len_remove(size: int, required: Seq<usize>, k: int)
    requires
        0 <= k < required.len(),
    ensures
        blocks_len(size, required) == blocks_len(size, required.remove(k)) + block_len(
            size,
            required[k] as int,
        ),
    decreases required.len(),
{
    let rest = required.remove(k);
    if k == required.len() - 1 {
        assert(rest =~= required.drop_last());
    } else {
        lemma_blocks_len_remove(size, required.drop_last(), k);
        assert(rest.drop_last() =~= required.drop_last().remove(k));
        assert(rest.last() == required.last());
    }
}

proof fn lemma_blocks_in_range(size: int, total: int, required: Seq<usize>)
    requires
        blocks_error(size, total, required) is None,
    ensures
        forall|i: int|
            0 <= i < required.len() ==> block_start(#[trigger] required[i] as int) <= size
                && required[i] < total,
    decreases required.len(),
{
    if required.len() > 0 {
        lemma_blocks_in_range(size, total, required.drop_last());
        assert forall|i: int| 0 <= i < required.len() implies block_start(
            #[trigger] required[i] as int,
        ) <= size && required[i] < total by {
            if i < required.len() - 1 {
                assert(required[i] == required.drop_last()[i]);
            }
        }
    }
}

proof fn lemma_distinct_blocks(size: int, count: nat, required: Seq<usize>)
    requires
        size >= 0,
        required.no_duplicates(),
        forall|i: int|
            0 <= i < required.len() ==> block_start(#[trigger] required[i] as int) <= size
                && required[i] < count,
    ensures
        0 <= blocks_len(size, required) <= (if block_start(count as int) < size {
            block_start(count as int)
        } else {
            size
        }),
    decreases count,
{
    if required.len() > 0 {
        assert(required[0] < count);
        let shorter = (count - 1) as nat;
        if exists|k: int| 0 <= k < required.len() && required[k] == shorter {
            let k = choose|k: int| 0 <= k < required.len() && required[k] == shorter;
            let rest = required.remove(k);
            assert forall|i: int| 0 <= i < rest.len() implies block_start(
                #[trigger] rest[i] as int,
            ) <= size && rest[i] < shorter by {
                let j = if i < k {
                    i
                } else {
                    i + 1
                };
                assert(rest[i] == required[j]);
                assert(required[j] != required[k]);
            }
            assert(rest.no_duplicates()) by {
                assert forall|i: int, j: int|
                    0 <= i < rest.len() && 0 <= j < rest.len() && i != j implies rest[i]
                    != rest[j] by {
                    let m = if i < k {
                        i
                    } else {
                        i + 1
                    };
                    let n = if j < k {
                        j
                    } else {
                        j + 1
                    };
                    assert(rest[i] == required[m] && rest[j] == required[n]);
                }
            }
            lemma_distinct_blocks(size, shorter, rest);
            lemma_blocks_len_remove(size, required, k);
        } else {
            assert forall|i: int| 0 <= i < required.len() implies block_start(
                #[trigger] required[i] as int,
            ) <= size && required[i] < shorter by {
                assert(required[i] != shorter);
            }
            lemma_distinct_blocks(size, shorter, required);
        }
    }
}

/// An upload counts as complete when its last block has been sent, where the platform asks for no
/// block twice and for none that the file does not have.
pub proof fn law_progress_ends_at_the_size(size: u64, total_parts: nat, required: Seq<usize>)
    requires
        required.len() > 0,
        required.no_duplicates(),
        blocks_error(size as int, total_parts as int, required) is None,
    ensures
        part_at(size as int, required, required.len() - 1).progress == size,
{
    lemma_blocks_in_range(size as int, total_parts as int, required);
    lemma_distinct_blocks(size as int, total_parts, required);
    assert(required.take(required.len() as int) =~= required);
}

/// The state that is kept of an upload is taken up again by the same upload.
pub proof fn law_kept_state_resumes(state: UploadResumeStateView)
    requires
        state.uploadid.len() > 0,
    ensures
        compatible(
            state,
            state.source_path,
            state.remote_path,
            state.materialized_path,
            state.size,
            state.encrypted,
            state.block_list,
        ),
{
}

/// The announcement of an upload that goes on names the session of the earlier one, and says the same
/// as that of a new one in all else.
pub proof fn law_resumed_upload_names_its_session(plan: UploadPlanView, uploadid: Seq<char>)
    ensures
        precreate_request(plan, Some(uploadid)).form.last() == ("uploadid"@, uploadid),
        precreate_request(plan, None) == (HttpRequestView {
            form: precreate_request(plan, Some(uploadid)).form.drop_last(),
            ..precreate_request(plan, Some(uploadid))
        }),
{
    let fresh = precreate_request(plan, None);
    assert(precreate_request(plan, Some(uploadid)).form.drop_last() =~= fresh.form);
}

/// An upload overwrites an existing file by force only, and says so from its announcement to the
/// request that makes the file.
pub proof fn law_force_decides_on_overwriting(
    plan: UploadPlanView,
    force: bool,
    resumed: Option<Seq<char>>,
    uploadid: Seq<char>,
)
    requires
        plan.ondup == duplicate_policy(force),
    ensures
        precreate_request(plan, resumed).form.contains(
            (
                "rtype"@,
                if force {
                    "3"@
                } else {
                    "0"@
                },
            ),
        ),
        create_request_of(plan, uploadid).form.contains(
            (
                "rtype"@,
                if force {
                    "3"@
                } else {
                    "0"@
                },
            ),
        ),
{
    assert(precreate_request(plan, resumed).form[4] == ("rtype"@, rtype_of(plan.ondup)));
    assert(create_request_of(plan, uploadid).form[3] == ("rtype"@, rtype_of(plan.ondup)));
}

/// The state that is kept of an upload is not taken up by one of other bytes, or to another place.
pub proof fn law_changed_upload_starts_again(
    state: UploadResumeStateView,
    source_path: Seq<u8>,
    remote_path: Seq<char>,
    materialized_path: Seq<u8>,
    size: u64,
    encrypted: bool,
    block_list: Seq<Seq<char>>,
)
    requires
        remote_path != state.remote_path || size != state.size || encrypted != state.encrypted
            || block_list != state.block_list,
    ensures
        !compatible(
            state,
            source_path,
            remote_path,
            materialized_path,
            size,
            encrypted,
            block_list,
        ),
{
}

// Encrypted files.

/// A file in either format is taken for one in that format, and its content comes out.
pub proof fn law_either_format_decrypts(file: Seq<u8>, passphrase: Seq<char>, content: Seq<u8>)
    requires
        v1_opened(file, passphrase) == Ok::<Seq<u8>, ErrorView>(content) || v2_opened(
            file,
            passphrase,
        ) == Ok::<Seq<u8>, ErrorView>(content),
    ensures
        downloaded_content(file, passphrase) == Ok::<Seq<u8>, ErrorView>(content),
{
    assert(magic_v1()[6] != magic_v2()[6]);
}

/// A file that opens in one format is refused as one in the other.
pub proof fn law_formats_are_apart(file: Seq<u8>, passphrase: Seq<char>)
    ensures
        v1_opened(file, passphrase) is Ok ==> v2_opened(file, passphrase) == Err::<
            Seq<u8>,
            ErrorView,
        >(crypto_error("not a V2 encrypted file"@)),
        v2_opened(file, passphrase) is Ok ==> v1_opened(file, passphrase) == Err::<
            Seq<u8>,
            ErrorView,
        >(crypto_error("unsupported encrypted file format"@)),
{
    assert(magic_v1()[6] != magic_v2()[6]);
}

/// The bytes of the parts, one after the other.
pub open spec fn in_one(parts: Seq<Seq<u8>>) -> Seq<u8>
    decreases parts.len(),
{
    if parts.len() == 0 {
        Seq::empty()
    } else {
        parts[0] + in_one(parts.drop_first())
    }
}

proof fn lemma_in_one_push(parts: Seq<Seq<u8>>, last: Seq<u8>)
    ensures
        in_one(parts.push(last)) == in_one(parts) + last,
    decreases parts.len(),
{
    let longer = parts.push(last);
    reveal_with_fuel(in_one, 2);
    if parts.len() == 0 {
        assert(longer.drop_first() =~= Seq::<Seq<u8>>::empty());
        assert(in_one(longer) =~= last);
        assert(in_one(parts) + last =~= last);
    } else {
        assert(longer.drop_first() =~= parts.drop_first().push(last));
        lemma_in_one_push(parts.drop_first(), last);
        assert(in_one(longer) =~= in_one(parts) + last);
    }
}

proof fn lemma_chunks_open(key: Seq<u8>, parts: Seq<Seq<u8>>, chunks: Seq<Seq<u8>>)
    requires
        parts.len() == chunks.len(),
        forall|i: int, rest: Seq<u8>|
            0 <= i < parts.len() ==> #[trigger] v2_body(key, chunks[i] + rest) == prepend(
                parts[i],
                v2_body(key, rest),
            ),
    ensures
        v2_body(key, in_one(chunks)) == Ok::<Seq<u8>, ErrorView>(in_one(parts)),
    decreases parts.len(),
{
    if parts.len() > 0 {
        let later = chunks.drop_first();
        assert forall|i: int, rest: Seq<u8>|
            0 <= i < parts.drop_first().len() implies #[trigger] v2_body(key, later[i] + rest)
            == prepend(parts.drop_first()[i], v2_body(key, rest)) by {
            assert(later[i] == chunks[i + 1]);
            assert(v2_body(key, chunks[i + 1] + rest) == prepend(parts[i + 1], v2_body(key, rest)));
        }
        lemma_chunks_open(key, parts.drop_first(), later);
        assert(v2_body(key, chunks[0] + in_one(later)) == prepend(
            parts[0],
            v2_body(key, in_one(later)),
        ));
    }
}

/// However a file is cut into parts that are sealed one after the other, the header and the chunks
/// together open to the whole of it. Of a chunk no more is asked than what sealing ensures.
pub proof fn law_sealed_parts_open_to_the_whole(
    passphrase: Seq<char>,
    salt: Seq<u8>,
    key: Seq<u8>,
    parts: Seq<Seq<u8>>,
    chunks: Seq<Seq<u8>>,
)
    requires
        salt.len() == SALT_LEN,
        derived_key(passphrase, salt) == Ok::<Seq<u8>, ErrorView>(key),
        parts.len() == chunks.len(),
        forall|i: int, rest: Seq<u8>|
            0 <= i < parts.len() ==> #[trigger] v2_body(key, chunks[i] + rest) == prepend(
                parts[i],
                v2_body(key, rest),
            ),
    ensures
        v2_opened(v2_header(salt) + in_one(chunks), passphrase) == Ok::<Seq<u8>, ErrorView>(
            in_one(parts),
        ),
{
    lemma_chunks_open(key, parts, chunks);
    lemma_v2_header(passphrase, salt, in_one(chunks));
}

// Files.

/// The files of a file system after a step, or nothing where the step fails. `passphrase` is the one
/// that files are decrypted with. Directories are left aside.
pub open spec fn after_step(
    files: Map<Seq<u8>, Seq<u8>>,
    step: FileStepView,
    passphrase: Seq<char>,
) -> Option<Map<Seq<u8>, Seq<u8>>> {
    match step {
        FileStepView::CreateDir(_) => Some(files),
        FileStepView::Write { path, content } => Some(files.insert(path, content)),
        FileStepView::Protect(path) => if files.contains_key(path) {
            Some(files)
        } else {
            None
        },
        FileStepView::Rename { from, to } => if files.contains_key(from) {
            Some(files.remove(from).insert(to, files[from]))
        } else {
            None
        },
        FileStepView::RemoveIfPresent(path) => Some(files.remove(path)),
        FileStepView::Decrypt { source, destination } => if files.contains_key(source) {
            match downloaded_content(files[source], passphrase) {
                Ok(content) => Some(files.insert(destination, content)),
                Err(_) => None,
            }
        } else {
            None
        },
    }
}

/// The files of a file system after steps, or nothing where one of them fails.
pub open spec fn after_steps(
    files: Map<Seq<u8>, Seq<u8>>,
    steps: Seq<FileStepView>,
    passphrase: Seq<char>,
) -> Option<Map<Seq<u8>, Seq<u8>>>
    decreases steps.len(),
{
    if steps.len() == 0 {
        Some(files)
    } else {
        match after_steps(files, steps.drop_last(), passphrase) {
            Some(between) => after_step(between, steps.last(), passphrase),
            None => None,
        }
    }
}

/// Where a file name ends, either the path ends or a slash follows.
proof fn lemma_slash_behind_name(marks: Seq<Mark>, end: int)
    requires
        body_start(marks) < body_end(marks, end),
        body_start(marks) <= end <= marks.len(),
    ensures
        body_end(marks, end) < end ==> marks[body_end(marks, end)] == Mark::Slash,
    decreases end,
{
    if body_start(marks) < end && blank_piece(marks, end) {
        let shorter = before_piece(marks, end);
        lemma_piece_start(marks, end);
        lemma_body_end(marks, shorter);
        lemma_slash_behind_name(marks, shorter);
        lemma_slash_before_piece(marks, end);
    }
}

proof fn lemma_slash_before_piece(marks: Seq<Mark>, end: int)
    requires
        body_start(marks) < end <= marks.len(),
    ensures
        piece_start(marks, end) > body_start(marks) ==> marks[piece_start(
            marks,
            end,
        ) - 1] == Mark::Slash,
    decreases end,
{
    reveal_with_fuel(piece_start, 2);
    if marks[end - 1] != Mark::Slash && body_start(marks) < end - 1 {
        lemma_slash_before_piece(marks, end - 1);
    }
}

proof fn lemma_stem_end(bytes: Seq<u8>, from: int, to: int, at: int)
    requires
        from < to <= bytes.len(),
        from <= at <= to,
        forall|i: int| at <= i < to && from < i ==> bytes[i] != 0x2e,
    ensures
        from < stem_end(bytes, from, to, at) <= to,
        stem_end(bytes, from, to, at) < to ==> bytes[stem_end(bytes, from, to, at)] == 0x2e,
        forall|i: int|
            stem_end(bytes, from, to, at) < i < to && from < i ==> #[trigger] bytes[i] != 0x2e,
    decreases at - from,
{
    if at > from + 1 && bytes[at - 1] != 0x2e {
        lemma_stem_end(bytes, from, to, at - 1);
    }
}

/// The file beside which a file is replaced is another one.
pub proof fn law_replacement_is_written_elsewhere(path: Seq<u8>)
    requires
        name_range(byte_marks(path)) is Some,
    ensures
        with_extension(path, encode_utf8("json.tmp"@)) != path,
{
    let marks = byte_marks(path);
    let extension = encode_utf8("json.tmp"@);
    let (from, to) = name_range(marks)->0;
    let stem = stem_end(path, from, to, to);
    lemma_temp_extension();
    lemma_body_end(marks, marks.len() as int);
    lemma_piece_start(marks, to);
    lemma_slash_behind_name(marks, marks.len() as int);
    lemma_stem_end(path, from, to, to);
    let temp = with_extension(path, extension);
    if temp == path {
        assert(temp.len() == stem + 9);
        assert(temp[stem] == 0x2e);
        assert(temp[stem + 5] == extension[4]);
        assert(forall|i: int| 0 <= i < 8 ==> temp[stem + 1 + i] == #[trigger] extension[i]);
        if to < path.len() {
            assert(marks[to] == Mark::Slash);
            assert(path[to] == 0x2f);
            assert(temp[to] == extension[to - stem - 1]);
        }
    }
}

proof fn lemma_temp_extension()
    ensures
        encode_utf8("json.tmp"@) =~= seq![0x6au8, 0x73, 0x6f, 0x6e, 0x2e, 0x74, 0x6d, 0x70],
{
    reveal_strlit("json.tmp");
    assert(is_ascii_chars("json.tmp"@));
    is_ascii_chars_encode_utf8("json.tmp"@);
}

/// What holds at `path` is what it was or what it is to be, at any moment while a file is replaced,
/// and nothing else is touched but the file beside it, which is gone in the end.
pub proof fn law_replacement_is_atomic(
    files: Map<Seq<u8>, Seq<u8>>,
    path: Seq<u8>,
    content: Seq<u8>,
    private: bool,
    passphrase: Seq<char>,
)
    requires
        name_range(byte_marks(path)) is Some,
    ensures
        after_steps(files, replace_steps(path, content, private), passphrase) == Some(
            files.remove(with_extension(path, encode_utf8("json.tmp"@))).insert(path, content),
        ),
        forall|k: int|
            0 <= k < replace_steps(path, content, private).len() ==> {
                let between = after_steps(
                    files,
                    #[trigger] replace_steps(path, content, private).take(k),
                    passphrase,
                );
                &&& between is Some
                &&& between->0.contains_key(path) == files.contains_key(path)
                &&& files.contains_key(path) ==> between->0[path] == files[path]
            },
{
    let temp = with_extension(path, encode_utf8("json.tmp"@));
    let steps = replace_steps(path, content, private);
    let last = steps.len() - 1;
    let written = files.insert(temp, content);
    law_replacement_is_written_elsewhere(path);
    reveal_with_fuel(after_steps, 5);
    assert forall|k: int| 0 <= k <= last implies {
        let between = after_steps(files, #[trigger] steps.take(k), passphrase);
        &&& between == Some(files) || between == Some(written)
        &&& k == last ==> between == Some(written)
    } by {
        assert(steps.take(0) =~= Seq::<FileStepView>::empty());
        if k >= 1 {
            assert(steps.take(1).drop_last() =~= steps.take(0));
        }
        if k >= 2 {
            assert(steps.take(2).drop_last() =~= steps.take(1));
        }
        if k >= 3 {
            assert(steps.take(3).drop_last() =~= steps.take(2));
        }
    }
    assert(steps.drop_last() =~= steps.take(last));
    assert(written.remove(temp) =~= files.remove(temp));
    assert(written.remove(temp).insert(path, content) =~= files.remove(temp).insert(path, content));
}

proof fn lemma_no_slash_in_piece(marks: Seq<Mark>, end: int)
    requires
        body_start(marks) < end <= marks.len(),
    ensures
        forall|i: int| piece_start(marks, end) <= i < end ==> #[trigger] marks[i] != Mark::Slash,
    decreases end,
{
    reveal_with_fuel(piece_start, 2);
    if marks[end - 1] != Mark::Slash && body_start(marks) < end - 1 {
        lemma_no_slash_in_piece(marks, end - 1);
    }
}

proof fn lemma_piece_behind_slash(marks: Seq<Mark>, start: int, end: int)
    requires
        body_start(marks) <= start <= end <= marks.len(),
        start > 0,
        marks[start - 1] == Mark::Slash,
        forall|i: int| start <= i < end ==> #[trigger] marks[i] != Mark::Slash,
    ensures
        piece_start(marks, end) == start,
    decreases end,
{
    if start < end {
        lemma_piece_behind_slash(marks, start, end - 1);
    }
}

/// What stands behind the last slash of a path is its file name, unless it is nothing, `.` or `..`.
proof fn lemma_name_behind_slash(directory: Seq<u8>, name: Seq<u8>)
    requires
        directory.len() > 0,
        directory.last() == 0x2f,
        name.len() > 2,
        forall|i: int| 0 <= i < name.len() ==> #[trigger] name[i] != 0x2f,
    ensures
        name_of(directory + name) == Some(name),
{
    let path = directory + name;
    let marks = byte_marks(path);
    let end = path.len() as int;
    let start = directory.len() as int;
    assert(path[start - 1] == 0x2f);
    assert forall|i: int| start <= i < end implies #[trigger] marks[i] != Mark::Slash by {
        assert(path[i] == name[i - start]);
    }
    lemma_piece_behind_slash(marks, start, end);
    assert(path.subrange(start, end) =~= name);
}

proof fn lemma_encode_concat(a: Seq<char>, b: Seq<char>)
    ensures
        encode_utf8(a + b) == encode_utf8(a) + encode_utf8(b),
    decreases a.len(),
{
    if a.len() == 0 {
        assert(a + b =~= b);
        assert(encode_utf8(a) + encode_utf8(b) =~= encode_utf8(b));
    } else {
        assert((a + b).drop_first() =~= a.drop_first() + b);
        lemma_encode_concat(a.drop_first(), b);
        assert(encode_utf8(a + b) =~= encode_utf8(a) + encode_utf8(b));
    }
}

/// The name that a destination lends to its sidecar files.
pub open spec fn lent_name(destination: Seq<u8>) -> Seq<char> {
    match text_name_of(destination) {
        Some(name) => name,
        None => "download"@,
    }
}

proof fn lemma_lent_name(destination: Seq<u8>)
    ensures
        forall|i: int|
            0 <= i < encode_utf8(lent_name(destination)).len() ==> #[trigger] encode_utf8(
                lent_name(destination),
            )[i] != 0x2f,
        lent_name(destination).len() > 0,
{
    let bytes = encode_utf8(lent_name(destination));
    let marks = byte_marks(destination);
    match text_name_of(destination) {
        Some(name) => {
            let (from, to) = name_range(marks)->0;
            let piece = destination.subrange(from, to);
            lemma_body_end(marks, marks.len() as int);
            lemma_piece_start(marks, to);
            lemma_no_slash_in_piece(marks, to);
            decode_utf8_encode_utf8(piece);
            assert(bytes == piece);
            assert forall|i: int| 0 <= i < bytes.len() implies #[trigger] bytes[i] != 0x2f by {
                assert(bytes[i] == destination[from + i]);
                assert(marks[from + i] != Mark::Slash);
            }
            assert(name.len() > 0);
        },
        None => {
            reveal_strlit("download");
            assert(is_ascii_chars("download"@));
            is_ascii_chars_encode_utf8("download"@);
        },
    }
}

/// A suffix of sidecar files: no slash is in it.
pub open spec fn plain_suffix(suffix: Seq<char>) -> bool {
    is_ascii_chars(suffix) && !suffix.contains('/')
}

/// The sidecar file of `name` is called `.name.suffix`, and so it is never the destination itself.
pub proof fn law_sidecar_is_hidden_beside(destination: Seq<u8>, suffix: Seq<char>)
    requires
        plain_suffix(suffix),
    ensures
        text_name_of(sidecar(destination, suffix)) == Some(
            "."@ + lent_name(destination) + "."@ + suffix,
        ),
        sidecar(destination, suffix) != destination,
{
    let name = lent_name(destination);
    let file_name = "."@ + name + "."@ + suffix;
    let bytes = encode_utf8(file_name);
    let directory = match parent_of(destination) {
        Some(parent) if parent.len() > 0 => parent,
        _ => encode_utf8("."@),
    };
    reveal_strlit(".");
    assert(is_ascii_chars("."@));
    is_ascii_chars_encode_utf8("."@);
    is_ascii_chars_encode_utf8(suffix);
    lemma_lent_name(destination);
    lemma_encode_concat("."@ + name + "."@, suffix);
    lemma_encode_concat("."@ + name, "."@);
    lemma_encode_concat("."@, name);
    encode_utf8_valid_utf8(file_name);
    encode_utf8_decode_utf8(file_name);
    encode_utf8_decode_utf8(name);
    let before = encode_utf8("."@).len();
    let between = encode_utf8(name).len();
    let tail = encode_utf8(suffix);
    assert(bytes == encode_utf8("."@) + encode_utf8(name) + encode_utf8("."@) + tail);
    assert forall|i: int| 0 <= i < bytes.len() implies #[trigger] bytes[i] != 0x2f by {
        if before <= i < before + between {
            assert(bytes[i] == encode_utf8(name)[i - before]);
        } else if i >= before + between + before {
            let j = i - before - between - before;
            assert(bytes[i] == tail[j]);
            assert(suffix[j] as u8 == tail[j]);
            assert(suffix.contains(suffix[j]));
        }
    }
    if between == 0 {
        assert(encode_utf8(name) =~= encode_utf8(Seq::empty()));
        encode_utf8_decode_utf8(Seq::empty());
    }
    assert(bytes[0] == 0x2e);
    let slashed = if directory.last() != 0x2f {
        directory.push(0x2f)
    } else {
        directory
    };
    assert(sidecar(destination, suffix) == slashed + bytes);
    lemma_name_behind_slash(slashed, bytes);
    assert(file_name.len() > name.len());
}

proof fn lemma_sidecar_suffixes()
    ensures
        plain_suffix("baidupan.part"@),
        plain_suffix("baidupan.resume.json"@),
        "baidupan.part"@.len() != "baidupan.resume.json"@.len(),
{
    reveal_strlit("baidupan.part");
    reveal_strlit("baidupan.resume.json");
}

/// The two sidecar files of a download are never the same.
pub proof fn law_sidecars_are_apart(destination: Seq<u8>)
    ensures
        sidecar(destination, "baidupan.part"@) != sidecar(destination, "baidupan.resume.json"@),
{
    let head = "."@ + lent_name(destination) + "."@;
    lemma_sidecar_suffixes();
    law_sidecar_is_hidden_beside(destination, "baidupan.part"@);
    law_sidecar_is_hidden_beside(destination, "baidupan.resume.json"@);
    assert((head + "baidupan.part"@).len() != (head + "baidupan.resume.json"@).len());
}

/// A download that succeeds leaves its content at the destination and no sidecar file, and touches
/// nothing else. Where it is decrypted, the content is what the file decrypts to.
pub proof fn law_finished_download_is_in_place(
    files: Map<Seq<u8>, Seq<u8>>,
    prepared: PreparedDownloadView,
    replace: bool,
    passphrase: Seq<char>,
)
    requires
        prepared.temp_path == sidecar(prepared.destination, "baidupan.part"@),
        prepared.state_path == sidecar(prepared.destination, "baidupan.resume.json"@),
        files.contains_key(prepared.temp_path),
        prepared.decrypt ==> downloaded_content(files[prepared.temp_path], passphrase) is Ok,
    ensures
        after_steps(files, finalize_steps(prepared, replace), passphrase) == Some(
            files.remove(prepared.temp_path).remove(prepared.state_path).insert(
                prepared.destination,
                if prepared.decrypt {
                    downloaded_content(files[prepared.temp_path], passphrase)->Ok_0
                } else {
                    files[prepared.temp_path]
                },
            ),
        ),
{
    let steps = finalize_steps(prepared, replace);
    lemma_sidecar_suffixes();
    law_sidecar_is_hidden_beside(prepared.destination, "baidupan.part"@);
    law_sidecar_is_hidden_beside(prepared.destination, "baidupan.resume.json"@);
    law_sidecars_are_apart(prepared.destination);
    let temp = prepared.temp_path;
    let state = prepared.state_path;
    let destination = prepared.destination;
    reveal_with_fuel(after_steps, 4);
    assert(steps.drop_last().drop_last().len() == steps.len() - 2);
    let content = if prepared.decrypt {
        downloaded_content(files[temp], passphrase)->Ok_0
    } else {
        files[temp]
    };
    let end = after_steps(files, steps, passphrase);
    assert(end is Some);
    assert(end->0 =~= files.remove(temp).remove(state).insert(destination, content));
}

/// A download goes on only with what an earlier one of the same remote file, for the same use, left
/// behind; then the partial file stays as it is. Otherwise it starts from nothing, and what is left
/// of another download is gone before it starts. The state is kept in either case.
pub proof fn law_only_the_same_download_resumes(
    files: Map<Seq<u8>, Seq<u8>>,
    remote_path: Seq<char>,
    destination: Seq<u8>,
    decrypt: bool,
    sidecars: Sidecars,
    state_json: Seq<u8>,
    passphrase: Seq<char>,
)
    requires
        sidecars is Absent ==> !files.contains_key(sidecar(destination, "baidupan.part"@)),
    ensures
        ({
            let prepared = prepared_download(remote_path, destination, decrypt, sidecars);
            let after = after_steps(
                files,
                prepare_steps(prepared, sidecars, state_json),
                passphrase,
            );
            &&& prepared.resume_from > 0 ==> sidecars is Found && sidecars->state.remote_path@
                == remote_path && sidecars->state.decrypt == decrypt && prepared.resume_from
                == sidecars->temp_len
            &&& after is Some
            &&& after->0.contains_key(prepared.state_path)
            &&& after->0[prepared.state_path] == state_json
            &&& if resumable(sidecars, remote_path, decrypt) is Some {
                after->0 == files.insert(prepared.state_path, state_json)
            } else {
                prepared.resume_from == 0 && !after->0.contains_key(prepared.temp_path)
            }
        }),
{
    let prepared = prepared_download(remote_path, destination, decrypt, sidecars);
    let steps = prepare_steps(prepared, sidecars, state_json);
    law_sidecars_are_apart(destination);
    reveal_with_fuel(after_steps, 4);
    if steps.len() == 1 {
        assert(steps.drop_last() =~= Seq::<FileStepView>::empty());
    } else {
        assert(steps.drop_last().drop_last().drop_last() =~= Seq::<FileStepView>::empty());
    }
}

// What is kept and read again.

/// The token that the file at `path` holds, if there is one, where `read` reads a token from JSON.
pub open spec fn stored_token(
    files: Map<Seq<u8>, Seq<u8>>,
    path: Seq<u8>,
    read: spec_fn(Seq<u8>) -> StoredToken,
) -> Option<StoredToken> {
    if files.contains_key(path) {
        Some(read(files[path]))
    } else {
        None
    }
}

/// A token that has been saved is loaded again, whatever the file held before, by whatever reads it
/// back from its JSON.
pub proof fn law_saved_token_is_loaded(
    files: Map<Seq<u8>, Seq<u8>>,
    path: Seq<u8>,
    token: StoredToken,
    json: Seq<u8>,
    read: spec_fn(Seq<u8>) -> StoredToken,
    passphrase: Seq<char>,
)
    requires
        name_range(byte_marks(path)) is Some,
        read(json) == token,
    ensures
        after_steps(files, replace_steps(path, json, true), passphrase) is Some,
        token_loaded(
            stored_token(
                after_steps(files, replace_steps(path, json, true), passphrase)->0,
                path,
                read,
            ),
        ) == Ok::<StoredToken, ErrorView>(token),
{
    law_replacement_is_atomic(files, path, json, true, passphrase);
}

/// Where no token was saved, or the last one was removed, nobody is logged in.
pub proof fn law_removed_token_is_gone(
    files: Map<Seq<u8>, Seq<u8>>,
    path: Seq<u8>,
    read: spec_fn(Seq<u8>) -> StoredToken,
    passphrase: Seq<char>,
)
    ensures
        !files.contains_key(path) ==> token_loaded(stored_token(files, path, read)) == Err::<
            StoredToken,
            ErrorView,
        >(ErrorView::NotLoggedIn),
        after_steps(files, seq![FileStepView::RemoveIfPresent(path)], passphrase) == Some(
            files.remove(path),
        ),
        token_loaded(stored_token(files.remove(path), path, read)) == Err::<StoredToken, ErrorView>(
            ErrorView::NotLoggedIn,
        ),
{
    let steps = seq![FileStepView::RemoveIfPresent(path)];
    reveal_with_fuel(after_steps, 2);
    assert(steps.drop_last() =~= Seq::<FileStepView>::empty());
}

/// A refresh that brings a token puts it in the place of the stored one and uses it; one that fails
/// leaves every file as it is and reports why.
pub proof fn law_refreshed_token_replaces_the_stored_one(
    files: Map<Seq<u8>, Seq<u8>>,
    path: Seq<u8>,
    refresh: Result<(StoredToken, Seq<u8>), ErrorView>,
    read: spec_fn(Seq<u8>) -> StoredToken,
    passphrase: Seq<char>,
)
    requires
        name_range(byte_marks(path)) is Some,
        refresh matches Ok((token, json)) ==> read(json) == token,
    ensures
        ({
            let (used, steps) = refresh_outcome(path, refresh);
            let after = after_steps(files, steps, passphrase);
            &&& after is Some
            &&& match refresh {
                Ok((token, _)) => used == Ok::<Seq<char>, ErrorView>(token.access_token@)
                    && token_loaded(stored_token(after->0, path, read)) == Ok::<
                    StoredToken,
                    ErrorView,
                >(token),
                Err(error) => used == Err::<Seq<char>, ErrorView>(error) && after->0 == files,
            }
        }),
{
    if let Ok((token, json)) = refresh {
        law_saved_token_is_loaded(files, path, token, json, read, passphrase);
    }
}

proof fn lemma_scalar_without_slash(character: char)
    requires
        character != '/',
    ensures
        forall|i: int|
            0 <= i < encode_scalar(character as u32).len() ==> #[trigger] encode_scalar(
                character as u32,
            )[i] != 0x2f,
{
    let c = character as u32;
    assert(c <= 0x7f && c != 0x2f ==> ((c & 0x7f) as u8) != 0x2f) by (bit_vector);
    assert((0xC0 | ((c >> 6) & 0x1F) as u8) != 0x2f) by (bit_vector);
    assert((0xE0 | ((c >> 12) & 0x0F) as u8) != 0x2f) by (bit_vector);
    assert((0xF0 | ((c >> 18) & 0x7) as u8) != 0x2f) by (bit_vector);
    assert((0x80 | (c & 0x3F) as u8) != 0x2f) by (bit_vector);
    assert((0x80 | ((c >> 6) & 0x3F) as u8) != 0x2f) by (bit_vector);
    assert((0x80 | ((c >> 12) & 0x3F) as u8) != 0x2f) by (bit_vector);
}

proof fn lemma_text_without_slash(text: Seq<char>)
    requires
        !text.contains('/'),
    ensures
        forall|i: int| 0 <= i < encode_utf8(text).len() ==> #[trigger] encode_utf8(text)[i] != 0x2f,
    decreases text.len(),
{
    if text.len() > 0 {
        let first = encode_scalar(text[0] as u32);
        let rest = text.drop_first();
        assert(text.contains(text[0]));
        assert(!rest.contains('/')) by {
            if rest.contains('/') {
                let i = rest.index_of('/');
                assert(text[i + 1] == '/');
            }
        }
        lemma_scalar_without_slash(text[0]);
        lemma_text_without_slash(rest);
        assert forall|i: int| 0 <= i < encode_utf8(text).len() implies #[trigger] encode_utf8(
            text,
        )[i] != 0x2f by {
            if i < first.len() {
                assert(encode_utf8(text)[i] == first[i]);
            } else {
                assert(encode_utf8(text)[i] == encode_utf8(rest)[i - first.len()]);
            }
        }
    }
}

/// The path of a file of a session: the directory with a slash behind it, then the key and the
/// suffix.
proof fn lemma_session_file(root: Seq<u8>, folder: Seq<char>, key: Seq<char>, suffix: Seq<char>)
    requires
        is_plain_key(key),
        folder.len() > 0,
        is_ascii_chars(folder),
        folder[0] != '/',
        folder.last() != '/',
        suffix.len() > 2,
        is_ascii_chars(suffix),
        !suffix.contains('/'),
    ensures
        ({
            let directory = joined(root, encode_utf8(folder)).push(0x2f);
            let name = encode_utf8(key + suffix);
            let path = joined(joined(root, encode_utf8(folder)), name);
            &&& path == directory + name
            &&& name_of(path) == Some(name)
            &&& name == encode_utf8(key) + encode_utf8(suffix)
            &&& encode_utf8(suffix).len() == suffix.len()
            &&& forall|i: int|
                0 <= i < suffix.len() ==> encode_utf8(suffix)[i] == #[trigger] suffix[i] as u8
        }),
{
    let directory = joined(root, encode_utf8(folder)).push(0x2f);
    let name = encode_utf8(key + suffix);
    is_ascii_chars_encode_utf8(suffix);
    is_ascii_chars_encode_utf8(folder);
    lemma_encode_concat(key, suffix);
    lemma_text_without_slash(key);
    lemma_text_without_slash(suffix);
    assert forall|i: int| 0 <= i < name.len() implies #[trigger] name[i] != 0x2f by {
        let behind = encode_utf8(key).len();
        if i < behind {
            assert(name[i] == encode_utf8(key)[i]);
        } else {
            assert(name[i] == encode_utf8(suffix)[i - behind]);
        }
    }
    assert(encode_utf8(folder)[0] == folder[0] as u8);
    assert(encode_utf8(folder).last() == folder.last() as u8);
    assert(joined(root, encode_utf8(folder)).last() == folder.last() as u8);
    assert(name[0] != 0x2f);
    lemma_name_behind_slash(directory, name);
}

/// Where the state of a session is kept, and what is written on the way there: neither is where
/// another session keeps its state, nor where any session keeps its ciphertext.
proof fn lemma_state_paths(root: Seq<u8>, key: Seq<char>, other: Seq<char>)
    requires
        is_plain_key(key),
        is_plain_key(other),
    ensures
        name_range(byte_marks(state_path_of(root, key))) is Some,
        state_path_of(root, key) == state_path_of(root, other) ==> key == other,
        with_extension(state_path_of(root, key), encode_utf8("json.tmp"@)) != state_path_of(
            root,
            other,
        ),
        state_path_of(root, key) != cache_path_of(root, other),
        with_extension(state_path_of(root, key), encode_utf8("json.tmp"@)) != cache_path_of(
            root,
            other,
        ),
{
    let mine = state_path_of(root, key);
    let theirs = state_path_of(root, other);
    let cache = cache_path_of(root, other);
    let temp = with_extension(mine, encode_utf8("json.tmp"@));
    reveal_strlit("sessions");
    reveal_strlit("cache");
    reveal_strlit(".json");
    reveal_strlit(".bin");
    lemma_session_file(root, "sessions"@, key, ".json"@);
    lemma_session_file(root, "sessions"@, other, ".json"@);
    lemma_session_file(root, "cache"@, other, ".bin"@);
    lemma_temp_extension();
    if mine == theirs {
        let behind = joined(root, encode_utf8("sessions"@)).len() + 1;
        assert(mine.subrange(behind as int, mine.len() as int) =~= encode_utf8(key + ".json"@));
        assert(theirs.subrange(behind as int, theirs.len() as int) =~= encode_utf8(
            other + ".json"@,
        ));
        encode_utf8_decode_utf8(key + ".json"@);
        encode_utf8_decode_utf8(other + ".json"@);
        assert((key + ".json"@).subrange(0, (key + ".json"@).len() - 5) =~= key);
        assert((other + ".json"@).subrange(0, (other + ".json"@).len() - 5) =~= other);
    }
    assert(mine[mine.len() - 2] == 0x6f) by {
        assert(".json"@[3] == 'o');
    }
    assert(theirs[theirs.len() - 2] == 0x6f) by {
        assert(".json"@[3] == 'o');
    }
    assert(cache[cache.len() - 2] == 0x69) by {
        assert(".bin"@[2] == 'i');
    }
    assert(temp[temp.len() - 2] == 0x6d);
}

/// The state that the file at `path` holds, if there is one, where `read` reads a state from JSON.
pub open spec fn stored_state(
    files: Map<Seq<u8>, Seq<u8>>,
    path: Seq<u8>,
    read: spec_fn(Seq<u8>) -> UploadResumeStateView,
) -> Option<UploadResumeStateView> {
    if files.contains_key(path) {
        Some(read(files[path]))
    } else {
        None
    }
}

/// A state that has been saved is read back under its key, by whatever reads it from its JSON, and
/// what is kept under another key is as it was.
pub proof fn law_saved_state_is_read_back(
    files: Map<Seq<u8>, Seq<u8>>,
    root: Seq<u8>,
    state: UploadResumeStateView,
    json: Seq<u8>,
    read: spec_fn(Seq<u8>) -> UploadResumeStateView,
    other: Seq<char>,
    passphrase: Seq<char>,
)
    requires
        is_plain_key(state.session_key),
        is_plain_key(other),
        other != state.session_key,
        read(json) == state,
    ensures
        ({
            let path = state_path_of(root, state.session_key);
            let beside = state_path_of(root, other);
            let after = after_steps(files, replace_steps(path, json, false), passphrase);
            &&& after is Some
            &&& stored_state(after->0, path, read) == Some(state)
            &&& stored_state(after->0, beside, read) == stored_state(files, beside, read)
        }),
{
    lemma_state_paths(root, state.session_key, other);
    law_replacement_is_atomic(
        files,
        state_path_of(root, state.session_key),
        json,
        false,
        passphrase,
    );
}

/// A state that has been removed, or that was never saved, is not there, and what is kept under
/// another key is as it was.
pub proof fn law_removed_state_is_gone(
    files: Map<Seq<u8>, Seq<u8>>,
    root: Seq<u8>,
    key: Seq<char>,
    read: spec_fn(Seq<u8>) -> UploadResumeStateView,
    other: Seq<char>,
    passphrase: Seq<char>,
)
    requires
        is_plain_key(key),
        is_plain_key(other),
        other != key,
    ensures
        ({
            let path = state_path_of(root, key);
            let beside = state_path_of(root, other);
            let after = after_steps(files, seq![FileStepView::RemoveIfPresent(path)], passphrase);
            &&& !files.contains_key(path) ==> stored_state(files, path, read) is None
            &&& after is Some
            &&& stored_state(after->0, path, read) is None
            &&& stored_state(after->0, beside, read) == stored_state(files, beside, read)
        }),
{
    let steps = seq![FileStepView::RemoveIfPresent(state_path_of(root, key))];
    lemma_state_paths(root, key, other);
    reveal_with_fuel(after_steps, 2);
    assert(steps.drop_last() =~= Seq::<FileStepView>::empty());
}

/// After an upload has succeeded its state is gone, and so is the ciphertext, if there is one. No
/// other file is touched: where nothing was encrypted, the file that was uploaded stays as it is. To
/// clean up again changes nothing.
pub proof fn law_finished_upload_is_cleaned_up(
    files: Map<Seq<u8>, Seq<u8>>,
    root: Seq<u8>,
    key: Seq<char>,
    materialized: Seq<u8>,
    encrypted: bool,
    read: spec_fn(Seq<u8>) -> UploadResumeStateView,
    passphrase: Seq<char>,
)
    ensures
        ({
            let path = state_path_of(root, key);
            let steps = cleanup_steps(path, materialized, encrypted);
            let after = after_steps(files, steps, passphrase);
            &&& after is Some
            &&& stored_state(after->0, path, read) is None
            &&& encrypted ==> !after->0.contains_key(materialized)
            &&& forall|file: Seq<u8>| #[trigger]
                after->0.contains_key(file) <==> files.contains_key(file) && file != path && !(
                encrypted && file == materialized)
            &&& forall|file: Seq<u8>| #[trigger]
                after->0.contains_key(file) ==> after->0[file] == files[file]
            &&& after_steps(after->0, steps, passphrase) == after
        }),
{
    let path = state_path_of(root, key);
    let steps = cleanup_steps(path, materialized, encrypted);
    reveal_with_fuel(after_steps, 3);
    if encrypted {
        let after = files.remove(path).remove(materialized);
        assert(steps.drop_last() =~= seq![FileStepView::RemoveIfPresent(path)]);
        assert(steps.drop_last().drop_last() =~= Seq::<FileStepView>::empty());
        assert(after_steps(files, steps, passphrase) == Some(after));
        assert(after.remove(path).remove(materialized) =~= after);
    } else {
        let after = files.remove(path);
        assert(steps.drop_last() =~= Seq::<FileStepView>::empty());
        assert(after_steps(files, steps, passphrase) == Some(after));
        assert(after.remove(path) =~= after);
    }
}

/// An upload that was interrupted goes on where it stopped when it is started again: the state that
/// was kept is read back, by whatever reads it from its JSON, its session is the one that the request
/// names, and the ciphertext in the cache is still there and is the one that is used.
pub proof fn law_interrupted_upload_is_resumed(
    files: Map<Seq<u8>, Seq<u8>>,
    root: Seq<u8>,
    state: UploadResumeStateView,
    json: Seq<u8>,
    read: spec_fn(Seq<u8>) -> UploadResumeStateView,
    passphrase: Seq<char>,
)
    requires
        is_plain_key(state.session_key),
        state.uploadid.len() > 0,
        read(json) == state,
    ensures
        ({
            let path = state_path_of(root, state.session_key);
            let cache = cache_path_of(root, state.session_key);
            let after = after_steps(files, replace_steps(path, json, false), passphrase);
            &&& after is Some
            &&& after->0.contains_key(path)
            &&& read(after->0[path]) == state
            &&& kept_uploadid(
                Some(read(after->0[path])),
                state.source_path,
                state.remote_path,
                state.materialized_path,
                state.size,
                state.encrypted,
                state.block_list,
            ) == Some(state.uploadid)
            &&& after->0.contains_key(cache) == files.contains_key(cache)
            &&& files.contains_key(cache) ==> after->0[cache] == files[cache] && upload_source(
                true,
                Some(cache),
                after->0.contains_key(cache),
            ) == UploadSourceView::Cached(cache)
        }),
{
    lemma_state_paths(root, state.session_key, state.session_key);
    law_replacement_is_atomic(
        files,
        state_path_of(root, state.session_key),
        json,
        false,
        passphrase,
    );
}

/// How much of a file is here when chunks of it have arrived, one after the other.
pub open spec fn offset_after(offset: int, chunks: Seq<Seq<u8>>) -> int
    decreases chunks.len(),
{
    if chunks.len() == 0 {
        offset
    } else {
        offset_after(offset + chunks[0].len(), chunks.drop_first())
    }
}

/// What a download writes: the chunks behind what is here already, or from the start.
pub open spec fn written(start: DownloadStart, before: Seq<u8>, chunks: Seq<Seq<u8>>) -> Seq<u8> {
    if start.append {
        before + in_one(chunks)
    } else {
        in_one(chunks)
    }
}

/// The progress of a download is the length of what has been written, from its start on.
pub proof fn law_download_progress_is_what_is_written(
    start: DownloadStart,
    before: Seq<u8>,
    chunks: Seq<Seq<u8>>,
)
    requires
        start.offset == (if start.append {
            before.len()
        } else {
            0
        }),
    ensures
        offset_after(start.offset as int, chunks) == written(start, before, chunks).len(),
{
    lemma_offset_after(start.offset as int, chunks);
}

proof fn lemma_offset_after(offset: int, chunks: Seq<Seq<u8>>)
    ensures
        offset_after(offset, chunks) == offset + in_one(chunks).len(),
    decreases chunks.len(),
{
    if chunks.len() > 0 {
        lemma_offset_after(offset + chunks[0].len(), chunks.drop_first());
    }
}

} // verus!
