//! What holds of answers that report errors, of batches, and of what is shown.
use vstd::prelude::*;
use vstd::utf8::encode_utf8;

use crate::api::{
    api_payload_error, check_pan_payload, download_error, download_payload_error, ensure_pan_ok,
    int_like, is_success, locateupload_payload_error, DownloadSummary, IntLike,
    LocateUploadResponse, RemoteEntry, UploadSummary,
};
use crate::auth::{map_handler_error, DeviceCodeResponse};
use crate::batch::{
    describe_batch_task, successes, task_line, BatchManifest, BatchReport, BatchRun, BatchTask,
    BatchTaskResult, TaskOutput,
};
use crate::cli::{
    download_failure, download_lines, entry_line, log_filter, login_lines, progress_position,
    token_lines, upload_failure, upload_lines, Action,
};
use crate::config::{AppCredentials, StoredToken};
use crate::error::{Error, ErrorView};
use crate::hints::openapi_errno_hint;
use crate::json::{
    json_document, member, text_views, JsonDocument, JsonDocumentView, JsonScalarView,
};
use crate::path::{lossy_text, LocalPath};
use crate::text::{digits_value, numeral, signed_numeral, trimmed};
use crate::transfer::crypto_failure;

verus! {

// Answers.

/// The value of a member is that of the first one under its name, and there is none where no member has
/// the name.
pub proof fn law_member_is_the_first_of_its_name(
    members: Seq<(Seq<char>, JsonScalarView)>,
    name: Seq<char>,
)
    ensures
        match member(members, name) {
            Some(value) => exists|i: int|
                {
                    &&& 0 <= i < members.len()
                    &&& (#[trigger] members[i]).0 == name
                    &&& members[i].1 == value
                    &&& forall|j: int| 0 <= j < i ==> (#[trigger] members[j]).0 != name
                },
            None => forall|j: int| 0 <= j < members.len() ==> (#[trigger] members[j]).0 != name,
        },
    decreases members.len(),
{
    if members.len() > 0 {
        let rest = members.drop_first();
        law_member_is_the_first_of_its_name(rest, name);
        if members[0].0 != name {
            match member(rest, name) {
                Some(value) => {
                    let i = choose|i: int|
                        {
                            &&& 0 <= i < rest.len()
                            &&& (#[trigger] rest[i]).0 == name
                            &&& rest[i].1 == value
                            &&& forall|j: int| 0 <= j < i ==> (#[trigger] rest[j]).0 != name
                        };
                    assert(members[i + 1] == rest[i]);
                    assert forall|j: int| 0 <= j < i + 1 implies (#[trigger] members[j]).0
                        != name by {
                        if j > 0 {
                            assert(members[j] == rest[j - 1]);
                        }
                    }
                },
                None => {
                    assert forall|j: int| 0 <= j < members.len() implies (#[trigger] members[j]).0
                        != name by {
                        if j > 0 {
                            assert(members[j] == rest[j - 1]);
                        }
                    }
                },
            }
        }
    }
}

/// What is known of the error numbers of the platform, and that nothing is known of any other.
pub proof fn law_hints(errno: i64, hint: Option<&'static str>)
    requires
        call_ensures(openapi_errno_hint, (errno,), hint),
    ensures
        errno == -1 ==> hint is Some && hint->0@ == "当前权益已过期；请确认账号状态后重试"@,
        errno == -3 ==> hint is Some && hint->0@ == "文件不存在；请确认远端路径或文件标识是否正确"@,
        errno == -6 ==> hint is Some && hint->0@ == "身份验证失败；请检查 access_token 是否有效，并确认授权成功"@,
        errno == -10 ==> hint is Some && hint->0@ == "网盘容量不足；请清理空间后重试上传"@,
        errno == -8 ==> hint is Some && hint->0@ == "远端已存在同名文件；请更换路径，或后续支持覆盖/重命名策略后再试"@,
        errno == -9 ==> hint is Some && hint->0@ == "文件或目录不存在；请确认路径正确，或目标尚未被删除/移动"@,
        errno == -7 ==> hint is Some && hint->0@ == "文件名或路径不合法，或者当前授权无权访问该路径；请检查远端路径和应用权限"@,
        errno == 1 ==> hint is Some && hint->0@ == "百度开放平台返回未知错误；如果频繁出现，建议稍后重试或联系平台支持"@,
        errno == 2 ==> hint is Some && hint->0@ == "参数错误；请检查必填参数、参数位置以及参数值是否合法"@,
        errno == 3 ==> hint is Some && hint->0@ == "接口方法不受支持；请检查请求 method 和 API 路径是否正确"@,
        errno == 4 ==> hint is Some && hint->0@ == "接口 QPS 达到上限；请降低并发或稍后重试"@,
        errno == 18 ==> hint is Some && hint->0@ == "接口 QPS 达到上限；请降低并发或稍后重试"@,
        errno == 5 ==> hint is Some && hint->0@ == "当前客户端 IP 不在白名单内；请检查开放平台安全设置"@,
        errno == 6 ==> hint is Some && hint->0@ == "当前应用不允许接入用户数据；建议稍后重新授权，或检查应用审核状态"@,
        errno == 17 ==> hint is Some && hint->0@ == "应用已达到每日访问限额；请等待配额恢复或申请更高配额"@,
        errno == 19 ==> hint is Some && hint->0@ == "应用已达到总调用量限额；请检查控制台配额设置"@,
        errno == 100 ==> hint is Some && hint->0@ == "请求缺少 access_token 或参数不合法；请确认已登录且请求参数完整"@,
        errno == 110 ==> hint is Some && hint->0@ == "access token 无效；请重新登录以获取新的 token"@,
        errno == 111 ==> hint is Some && hint->0@ == "有其他异步任务正在执行；请稍后重试当前操作"@,
        errno == 20011 ==> hint is Some && hint->0@ == "应用仍在审核中；未上线前仅限前 10 个授权用户测试"@,
        errno == 20012 ==> hint is Some && hint->0@ == "应用访问超限；请检查应用审核状态与调用频率"@,
        errno == 20013 ==> hint is Some && hint->0@ == "当前应用缺少接口权限；请检查审核状态和已申请能力"@,
        errno == 213 ==> hint is Some && hint->0@ == "当前授权没有访问用户手机号的权限；请调整应用权限范围"@,
        errno == 10 ==> hint is Some && hint->0@ == "创建文件失败；通常是分片、文件大小或 block_list 与预上传阶段不一致"@,
        errno == 31023 ==> hint is Some && hint->0@ == "参数错误；请检查必选参数、URL 参数和表单参数是否都正确"@,
        errno == 31024 ==> hint is Some && hint->0@ == "应用没有上传权限；请先在百度网盘开放平台申请开通上传能力"@,
        errno == 31034 ==> hint is Some && hint->0@ == "命中接口频控；请降低请求频率后重试"@,
        errno == 31045 ==> hint is Some && hint->0@ == "access_token 验证未通过；请检查 token 是否过期，并确认授权包含网盘权限"@,
        errno == 31061 ==> hint is Some && hint->0@ == "文件已存在；请更换目标路径或调整重复文件处理策略"@,
        errno == 31062 ==> hint is Some && hint->0@ == "文件名无效；请检查是否包含不允许的特殊字符"@,
        errno == 31064 ==> hint is Some && hint->0@ == "上传路径错误；网盘开放平台上传路径必须符合 /apps/应用名/... 的限制"@,
        errno == 31066 ==> hint is Some && hint->0@ == "文件名不存在；请检查路径是否正确，以及目标文件是否确实存在"@,
        errno == 31190 ==> hint is Some && hint->0@ == "云端没有找到待创建文件；通常是分片上传不完整、block_list 不匹配或 size 不一致"@,
        errno == 31299 ==> hint is Some && hint->0@ == "第一个分片小于 4MB；普通用户分片大小应固定为 4MB，最后一个分片除外"@,
        errno == 31326 ==> hint is Some && hint->0@ == "命中防盗链；请确认下载请求头里带了 User-Agent: pan.baidu.com"@,
        errno == 31355 ==> hint is Some && hint->0@ == "uploadid 参数异常；请确认 create 或续传时使用的是 precreate 返回的同一个 uploadid"@,
        errno == 31360 ==> hint is Some && hint->0@ == "链接已过期；请重新获取下载链接或重新发起上传定位请求"@,
        errno == 31362 ==> hint is Some && hint->0@ == "签名错误；请检查下载链接是否完整，以及 access_token 是否正确拼接"@,
        errno == 31363 ==> hint is Some && hint->0@ == "分片缺失；请检查是否所有分片都已上传，以及 size、partseq、block_list 是否一致"@,
        errno == 31364 ==> hint is Some && hint->0@ == "分片大小超限；普通用户建议固定使用 4MB 分片"@,
        errno == 31365 ==> hint is Some && hint->0@ == "文件总大小超出当前账号等级限制；普通用户上限 4GB，会员与超级会员更高"@,
        hint is Some ==> seq![
            -1int,
            -3,
            -6,
            -10,
            -8,
            -9,
            -7,
            1,
            2,
            3,
            4,
            18,
            5,
            6,
            17,
            19,
            100,
            110,
            111,
            20011,
            20012,
            20013,
            213,
            10,
            31023,
            31024,
            31034,
            31045,
            31061,
            31062,
            31064,
            31066,
            31190,
            31299,
            31326,
            31355,
            31360,
            31362,
            31363,
            31364,
            31365,
        ].contains(errno as int),
{
    let known = seq![
        -1int,
        -3,
        -6,
        -10,
        -8,
        -9,
        -7,
        1,
        2,
        3,
        4,
        18,
        5,
        6,
        17,
        19,
        100,
        110,
        111,
        20011,
        20012,
        20013,
        213,
        10,
        31023,
        31024,
        31034,
        31045,
        31061,
        31062,
        31064,
        31066,
        31190,
        31299,
        31326,
        31355,
        31360,
        31362,
        31363,
        31364,
        31365,
    ];
    assert(known[0] == -1);
    assert(known[1] == -3);
    assert(known[2] == -6);
    assert(known[3] == -10);
    assert(known[4] == -8);
    assert(known[5] == -9);
    assert(known[6] == -7);
    assert(known[7] == 1);
    assert(known[8] == 2);
    assert(known[9] == 3);
    assert(known[10] == 4);
    assert(known[11] == 18);
    assert(known[12] == 5);
    assert(known[13] == 6);
    assert(known[14] == 17);
    assert(known[15] == 19);
    assert(known[16] == 100);
    assert(known[17] == 110);
    assert(known[18] == 111);
    assert(known[19] == 20011);
    assert(known[20] == 20012);
    assert(known[21] == 20013);
    assert(known[22] == 213);
    assert(known[23] == 10);
    assert(known[24] == 31023);
    assert(known[25] == 31024);
    assert(known[26] == 31034);
    assert(known[27] == 31045);
    assert(known[28] == 31061);
    assert(known[29] == 31062);
    assert(known[30] == 31064);
    assert(known[31] == 31066);
    assert(known[32] == 31190);
    assert(known[33] == 31299);
    assert(known[34] == 31326);
    assert(known[35] == 31355);
    assert(known[36] == 31360);
    assert(known[37] == 31362);
    assert(known[38] == 31363);
    assert(known[39] == 31364);
    assert(known[40] == 31365);
}

/// What is behind an error number, as part of a text: nothing where no hint is known.
pub open spec fn hint_behind(hint: Option<&'static str>) -> Seq<char> {
    match hint {
        Some(text) => ", hint="@ + text@,
        None => Seq::empty(),
    }
}

/// The message of an answer, as part of a text: nothing where it has none.
pub open spec fn message_behind(payload: JsonDocumentView) -> Seq<char> {
    match (payload.get("errmsg"@), payload.get("error_msg"@)) {
        (Some(JsonScalarView::Text(text)), _) => ", message="@ + text,
        (None, Some(JsonScalarView::Text(text))) => ", message="@ + text,
        _ => Seq::empty(),
    }
}

proof fn lemma_no_text()
    ensures
        ""@ == Seq::<char>::empty(),
{
    reveal_strlit("");
    assert(""@ =~= Seq::<char>::empty());
}

/// An answer reports success unless its error number is other than zero. What is reported otherwise
/// names the operation, the number, what is known of it, the message, and the answer itself.
pub proof fn law_error_numbers_are_reported(
    operation: &str,
    payload: JsonDocument,
    errno: i64,
    hint: Option<&'static str>,
    reported: Error,
    result: Result<(), Error>,
)
    requires
        call_ensures(check_pan_payload, (operation, &payload), result),
        call_ensures(api_payload_error, (operation, &payload), reported),
        call_ensures(openapi_errno_hint, (errno,), hint),
        payload@.get("errno"@) == Some(JsonScalarView::Number(Some(errno))),
    ensures
        result is Ok <==> errno == 0,
        result matches Err(error) ==> error@ == reported@,
        reported@ == ErrorView::Api(
            operation@ + " failed with errno="@ + signed_numeral(errno as int) + hint_behind(hint)
                + message_behind(payload@) + ": "@ + payload.text@,
        ),
{
    lemma_no_text();
}

/// An answer without an error number that is a whole number reports success, and one that is not JSON
/// is a failure of the transport.
pub proof fn law_answers_without_a_number(
    operation: &str,
    payload: JsonDocument,
    reported: Error,
    result: Result<(), Error>,
    body: &[u8],
    answer: Result<(), Error>,
)
    requires
        call_ensures(api_payload_error, (operation, &payload), reported),
        call_ensures(check_pan_payload, (operation, &payload), result),
        call_ensures(ensure_pan_ok, (operation, body), answer),
    ensures
        !(payload@.get("errno"@) matches Some(JsonScalarView::Number(Some(_)))) ==> result is Ok,
        !(payload@.get("errno"@) matches Some(JsonScalarView::Number(Some(_)))) ==> reported@
            == ErrorView::Api(
            operation@ + " failed with errno="@ + signed_numeral(0) + message_behind(payload@)
                + ": "@ + payload.text@,
        ),
        json_document(body@) is None ==> answer is Err && answer->Err_0@ == ErrorView::Http(
            "error decoding response body"@,
        ),
        json_document(body@) == Some(payload@) ==> (match (result, answer) {
            (Ok(_), Ok(_)) => true,
            (Err(error), Err(other)) => other@ == error@,
            _ => false,
        }),
{
    lemma_no_text();
    let head = operation@ + " failed with errno="@ + signed_numeral(0);
    assert(head + Seq::<char>::empty() =~= head);
}

/// A refused download is reported with its status, and with the number, the hint, the message and the
/// answer where that is JSON and carries a number; otherwise with the text of the answer.
pub proof fn law_refused_download_is_reported(
    status: &str,
    body: &str,
    payload: JsonDocument,
    code: i64,
    hint: Option<&'static str>,
    with_number: Error,
    without: Error,
)
    requires
        call_ensures(download_error, (status, body, Some(payload)), with_number),
        call_ensures(download_error, (status, body, None), without),
        call_ensures(openapi_errno_hint, (code,), hint),
        payload@.get("errno"@) == Some(JsonScalarView::Number(Some(code))) || (payload@.get(
            "errno"@,
        ) is None && payload@.get("error_code"@) == Some(JsonScalarView::Number(Some(code)))),
    ensures
        with_number@ == ErrorView::Api(
            "download failed with status="@ + status@ + " errno="@ + signed_numeral(code as int)
                + hint_behind(hint) + message_behind(payload@) + ": "@ + payload.text@,
        ),
        without@ == ErrorView::Api(
            "download failed with status="@ + status@ + ": "@ + trimmed(body@),
        ),
{
    lemma_no_text();
}

/// A refused download whose answer is JSON without a number is reported with the text of the answer;
/// and what is reported on the wire is what is reported of the document in the answer.
pub proof fn law_refused_download_on_the_wire(
    status: &str,
    body: &str,
    payload: JsonDocument,
    without_number: Error,
    without: Error,
    on_the_wire: Error,
)
    requires
        call_ensures(download_error, (status, body, Some(payload)), without_number),
        call_ensures(download_error, (status, body, None), without),
        call_ensures(download_payload_error, (status, body), on_the_wire),
    ensures
        ({
            let code = match payload@.get("errno"@) {
                Some(value) => Some(value),
                None => payload@.get("error_code"@),
            };
            !(code matches Some(JsonScalarView::Number(Some(_)))) ==> without_number@ == without@
        }),
        json_document(encode_utf8(body@)) is None ==> on_the_wire@ == without@,
        json_document(encode_utf8(body@)) == Some(payload@) ==> on_the_wire@ == without_number@,
{
}

/// Servers that cannot be located are reported with the number, the hint and the message.
pub proof fn law_failure_to_locate_is_reported(
    payload: LocateUploadResponse,
    hint: Option<&'static str>,
    result: Error,
)
    requires
        call_ensures(locateupload_payload_error, (&payload,), result),
        call_ensures(openapi_errno_hint, (payload.error_code,), hint),
    ensures
        result@ == ErrorView::Api(
            "locateupload failed with error_code="@ + signed_numeral(payload.error_code as int)
                + hint_behind(hint) + (if payload.error_msg@.len() == 0 {
                Seq::empty()
            } else {
                ", message="@ + payload.error_msg@
            }),
        ),
{
    lemma_no_text();
}

/// A status reports success from 200 up to 299. A number that is given as text is the number that its
/// digits stand for.
pub proof fn law_statuses_and_numbers(
    status: u16,
    success: bool,
    n: i32,
    digits: String,
    number: Result<i32, String>,
    from_text: Result<i32, String>,
    signed: String,
    from_signed: Result<i32, String>,
)
    requires
        call_ensures(int_like, (IntLike::Text(signed),), from_signed),
        signed@ == seq!['-'] + digits@,
        call_ensures(is_success, (status,), success),
        call_ensures(int_like, (IntLike::Int(n),), number),
        call_ensures(int_like, (IntLike::Text(digits),), from_text),
        digits@.len() > 0,
        forall|i: int| 0 <= i < digits@.len() ==> '0' <= #[trigger] digits@[i] <= '9',
        digits_value(digits@) <= i32::MAX,
    ensures
        success <==> 200 <= status <= 299,
        number is Ok && number->Ok_0 == n,
        from_text is Ok && from_text->Ok_0 == digits_value(digits@),
        from_signed is Ok && from_signed->Ok_0 == -digits_value(digits@),
{
    assert('0' <= digits@[0] <= '9');
    assert(signed@.drop_first() =~= digits@);
}

// Errors.

/// Each error is shown in the words for its kind, with what it carries behind them.
pub proof fn law_errors_in_words(error: Error, text: String, again: Error)
    requires
        call_ensures(Error::to_string, (&error,), text),
        call_ensures(crypto_failure, (&error,), again),
    ensures
        text@ == (match error {
            Error::MissingEnv(name) => "missing environment variable "@ + name@,
            Error::InvalidConfig(text) => "invalid configuration: "@ + text@,
            Error::Http(text) => "HTTP request failed: "@ + text@,
            Error::ConfigDirUnavailable => "configuration directory is unavailable on this system"@,
            Error::NotLoggedIn => "token file does not exist; run `baidupan login` first"@,
            Error::Io { path, source } => "I/O error at "@ + lossy_text(path@) + ": "@ + source@,
            Error::Json(text) => "failed to parse JSON: "@ + text@,
            Error::Time(text) => "system clock error: "@ + text@,
            Error::Api(text) => "API error: "@ + text@,
            Error::InvalidRemotePath(text) => "invalid remote path: "@ + text@,
            Error::Crypto(text) => "cryptography error: "@ + text@,
        }),
        again@ == ErrorView::Crypto(text@),
{
}

/// An error is answered with its words and a status: a fault of the request, no authorization, a fault
/// of the platform, or one of the server.
pub proof fn law_errors_as_answers(error: Error, words: String, result: (u16, String))
    requires
        call_ensures(map_handler_error, (&error,), result),
        call_ensures(Error::to_string, (&error,), words),
    ensures
        result.1@ == words@,
        result.0 == 400 <==> error is MissingEnv || error is InvalidConfig
            || error is InvalidRemotePath,
        result.0 == 401 <==> error is NotLoggedIn,
        result.0 == 502 <==> error is Api,
        result.0 == 500 <==> error is Http || error is ConfigDirUnavailable || error is Io
            || error is Json || error is Time || error is Crypto,
{
}

/// A failed transfer is reported with both of its ends, where it comes from first, and the reason.
pub proof fn law_failed_transfers_name_both_ends(
    local: LocalPath,
    remote: &str,
    error: Error,
    reason: String,
    upload: Error,
    download: Error,
)
    requires
        call_ensures(Error::to_string, (&error,), reason),
        call_ensures(upload_failure, (&local, remote, &error), upload),
        call_ensures(download_failure, (remote, &local, &error), download),
    ensures
        upload@ == ErrorView::Api(
            "upload "@ + lossy_text(local@) + " -> "@ + remote@ + " failed: "@ + reason@,
        ),
        download@ == ErrorView::Api(
            "download "@ + remote@ + " -> "@ + lossy_text(local@) + " failed: "@ + reason@,
        ),
{
}

// Batches.

/// A manifest is its list of tasks, in their order, bare or wrapped.
pub proof fn law_manifest_is_its_tasks(
    tasks: Vec<BatchTask>,
    bare: Vec<BatchTask>,
    wrapped: Vec<BatchTask>,
)
    requires
        call_ensures(BatchManifest::into_tasks, (BatchManifest::Tasks(tasks),), bare),
        call_ensures(BatchManifest::into_tasks, (BatchManifest::Wrapped { tasks },), wrapped),
    ensures
        bare == tasks,
        wrapped == tasks,
{
}

/// A task is described by its kind and its paths, where it comes from first.
pub proof fn law_tasks_in_words(task: BatchTask, result: String)
    requires
        call_ensures(describe_batch_task, (&task,), result),
    ensures
        result@ == (match task {
            BatchTask::Mkdir { path } => "mkdir "@ + path@,
            BatchTask::Rm { path } => "rm "@ + path@,
            BatchTask::Mv { from, to } => "mv "@ + from@ + " -> "@ + to@,
            BatchTask::Cp { from, to } => "cp "@ + from@ + " -> "@ + to@,
            BatchTask::Upload { local, remote, .. } => "upload "@ + lossy_text(local@) + " -> "@
                + remote@,
            BatchTask::Download { remote, local, .. } => "download "@ + remote@ + " -> "@
                + lossy_text(local@),
        }),
{
}

/// The line on a task says which one it is, counted from one, of how many; what came of it; what it
/// is; and why it failed, if it did.
pub proof fn law_line_on_a_task(
    index: usize,
    total: usize,
    task: BatchTask,
    words: String,
    error: Error,
    reason: String,
    done: String,
    failed: String,
)
    requires
        index < total,
        call_ensures(describe_batch_task, (&task,), words),
        call_ensures(Error::to_string, (&error,), reason),
        call_ensures(task_line, (index, total, &task, None), done),
        call_ensures(task_line, (index, total, &task, Some(&error)), failed),
    ensures
        done@ == "["@ + numeral((index + 1) as nat) + "/"@ + numeral(total as nat) + "] "@ + "ok: "@
            + words@,
        failed@ == "["@ + numeral((index + 1) as nat) + "/"@ + numeral(total as nat) + "] "@
            + "failed: "@ + words@ + ": "@ + reason@,
{
}

proof fn lemma_successes(results: Seq<BatchTaskResult>)
    ensures
        successes(results) == results.filter(|noted: BatchTaskResult| noted.ok).len(),
        successes(results) <= results.len(),
        successes(results) == results.len() <==> forall|i: int|
            0 <= i < results.len() ==> (#[trigger] results[i]).ok,
    decreases results.len(),
{
    reveal(Seq::filter);
    if results.len() > 0 {
        let before = results.drop_last();
        lemma_successes(before);
        assert forall|i: int| 0 <= i < before.len() implies before[i] == #[trigger] results[i] by {}
        if forall|i: int| 0 <= i < before.len() ==> (#[trigger] before[i]).ok {
            assert forall|i: int| 0 <= i < before.len() implies (#[trigger] results[i]).ok by {
                assert(before[i].ok);
            }
        }
        if results.last().ok && successes(before) == before.len() {
            assert forall|i: int| 0 <= i < results.len() implies (#[trigger] results[i]).ok by {
                if i < before.len() {
                    assert(before[i].ok);
                }
            }
        }
        if forall|i: int| 0 <= i < results.len() ==> (#[trigger] results[i]).ok {
            assert(results[results.len() - 1].ok);
            assert forall|i: int| 0 <= i < before.len() implies (#[trigger] before[i]).ok by {
                assert(results[i].ok);
            }
        }
    }
}

/// The report on a batch counts the tasks that succeeded and those that failed, and carries what was
/// noted of each. The batch as a whole succeeds if and only if every task that was run did.
pub proof fn law_report_counts_what_was_run(
    run: BatchRun,
    report: BatchReport,
    verdict: Result<(), Error>,
    line: String,
)
    requires
        run.wf(),
        call_ensures(BatchRun::report, (run,), report),
        call_ensures(BatchReport::verdict, (&report,), verdict),
        call_ensures(BatchReport::line, (&report,), line),
    ensures
        report.total == run.total,
        report.results@ == run.results@,
        report.succeeded == run.results@.filter(|noted: BatchTaskResult| noted.ok).len(),
        report.failed == run.results@.len() - report.succeeded,
        verdict is Ok <==> forall|i: int| 0 <= i < run.results@.len() ==> (#[trigger] run.results@[
            i
        ]).ok,
        verdict matches Err(error) ==> error@ == ErrorView::Api(
            "batch completed with "@ + numeral(report.failed as nat) + " failure(s)"@,
        ),
        line@ == "batch complete: "@ + numeral(report.succeeded as nat) + " succeeded, "@ + numeral(
            report.failed as nat,
        ) + " failed, "@ + numeral(report.total as nat) + " total"@,
{
    lemma_successes(run.results@);
}

/// A batch starts with its first task and goes on with the next, one after the other, until all are
/// done; after a failure it goes on only where it was told to.
pub proof fn law_batch_goes_on(
    total: usize,
    continue_on_error: bool,
    fresh: BatchRun,
    first: Option<usize>,
    run: BatchRun,
    next: Option<usize>,
)
    requires
        call_ensures(BatchRun::new, (total, continue_on_error), fresh),
        call_ensures(BatchRun::next, (&fresh,), first),
        call_ensures(BatchRun::next, (&run,), next),
    ensures
        fresh.total == total && fresh.continue_on_error == continue_on_error
            && fresh.results@.len() == 0,
        first == (if total > 0 {
            Some(0usize)
        } else {
            None
        }),
        next matches Some(index) ==> index == run.results@.len() && index < run.total,
        next is None <==> run.results@.len() >= run.total || (!run.continue_on_error
            && run.results@.len() > 0 && !run.results@[run.results@.len() - 1].ok),
{
}

/// What came of a task is noted behind what was noted before, with the task: its output where it
/// succeeded, and the words of the error where it failed.
pub proof fn law_results_are_noted(
    run: &mut BatchRun,
    task: BatchTask,
    outcome: Result<TaskOutput, Error>,
    error: Error,
    words: String,
)
    requires
        call_ensures(BatchRun::record, (run, task, outcome), ()),
        call_ensures(Error::to_string, (&error,), words),
        outcome matches Err(reported) ==> reported == error,
    ensures
        final(run).results@.len() == old(run).results@.len() + 1,
        forall|i: int|
            0 <= i < old(run).results@.len() ==> #[trigger] final(run).results@[i] == old(
                run,
            ).results@[i],
        ({
            let noted = final(run).results@[old(run).results@.len() as int];
            &&& noted.task == task
            &&& noted.ok <==> outcome is Ok
            &&& outcome matches Ok(output) ==> noted.output == Some(output) && noted.error is None
            &&& outcome is Err ==> noted.output is None && (noted.error matches Some(text) && text@
                == words@)
        }),
        final(run).total == old(run).total,
        final(run).continue_on_error == old(run).continue_on_error,
{
    let before = old(run).results@;
    let after = final(run).results@;
    assert forall|i: int| 0 <= i < before.len() implies #[trigger] after[i] == before[i] by {
        assert(after.drop_last()[i] == before[i]);
    }
}

/// What an action gives to a report are its remote paths, in their roles.
pub proof fn law_output_keeps_the_roles(action: Action, result: Option<TaskOutput>)
    requires
        call_ensures(Action::output, (&action,), result),
    ensures
        match action {
            Action::Mkdir { path } => result matches Some(TaskOutput::Path { path: given }) && given@
                == path@,
            Action::Rm { path } => result matches Some(TaskOutput::Path { path: given }) && given@
                == path@,
            Action::Mv { from, to } => result matches Some(
                TaskOutput::Relocation { from: source, to: target },
            ) && source@ == from@ && target@ == to@,
            Action::Cp { from, to } => result matches Some(
                TaskOutput::Relocation { from: source, to: target },
            ) && source@ == from@ && target@ == to@,
            _ => result is None,
        },
{
}

// What is shown.

/// The line on an entry gives its kind, its size, its path and its name.
pub proof fn law_line_on_an_entry(entry: RemoteEntry, result: String)
    requires
        call_ensures(entry_line, (&entry,), result),
    ensures
        entry.isdir == 1 ==> result@ == "dir"@ + "\t"@ + numeral(entry.size as nat) + "\t"@
            + entry.path@ + "\t"@ + entry.server_filename@,
        entry.isdir != 1 ==> result@ == "file"@ + "\t"@ + numeral(entry.size as nat) + "\t"@
            + entry.path@ + "\t"@ + entry.server_filename@,
{
}

proof fn lemma_lines(lines: Seq<String>)
    ensures
        text_views(lines).len() == lines.len(),
        forall|i: int| 0 <= i < lines.len() ==> text_views(lines)[i] == (#[trigger] lines[i])@,
{
}

/// What is shown of a token is its scope and when it expires, nothing of the token itself; and of the
/// application no more than its key, masked.
pub proof fn law_lines_on_a_login(
    token: StoredToken,
    lines: Vec<String>,
    credentials: AppCredentials,
    device_code: DeviceCodeResponse,
    masked_key: String,
    interval: u64,
    login: Vec<String>,
)
    requires
        call_ensures(token_lines, (&token,), lines),
        call_ensures(login_lines, (&credentials, &device_code), login),
        call_ensures(AppCredentials::masked_app_key, (&credentials,), masked_key),
        call_ensures(crate::auth::poll_interval, (device_code.interval,), interval),
    ensures
        lines@.len() == 2,
        lines@[0]@ == "scope: "@ + (match token.scope {
            Some(scope) => scope@,
            None => "unknown"@,
        }),
        lines@[1]@ == "expires_at: "@ + signed_numeral(token.expires_at as int),
        login@.len() == 5,
        login@[0]@ == "App key: "@ + masked_key@,
        login@[1]@ == "Open this URL: "@ + device_code.verification_url@,
        login@[2]@ == "User code: "@ + device_code.user_code@,
        login@[3]@ == "QR URL: "@ + device_code.qrcode_url@,
        login@[4]@ == "Waiting for authorization, polling every "@ + numeral(interval as nat)
            + " seconds..."@,
{
    lemma_lines(lines@);
    lemma_lines(login@);
}

/// The lines on a transfer name both of its ends, where it comes from first, its size, and whether it
/// was encrypted or decrypted.
pub proof fn law_lines_on_transfers(
    local: LocalPath,
    upload: UploadSummary,
    uploaded: Vec<String>,
    download: DownloadSummary,
    downloaded: Vec<String>,
)
    requires
        call_ensures(upload_lines, (&local, &upload), uploaded),
        call_ensures(download_lines, (&local, &download), downloaded),
    ensures
        uploaded@.len() == (if upload.encrypted {
            3int
        } else {
            2
        }),
        uploaded@[0]@ == "uploaded "@ + lossy_text(local@) + " -> "@ + upload.path@,
        uploaded@[1]@ == "size: "@ + numeral(upload.size as nat) + " bytes, parts: "@ + numeral(
            upload.parts as nat,
        ),
        upload.encrypted ==> uploaded@[2]@ == "remote payload is encrypted"@,
        downloaded@.len() == (if download.decrypted {
            3int
        } else {
            2
        }),
        downloaded@[0]@ == "downloaded "@ + download.remote_path@ + " -> "@ + lossy_text(local@),
        downloaded@[1]@ == "size: "@ + numeral(download.size as nat) + " bytes"@,
        download.decrypted ==> downloaded@[2]@ == "local payload has been decrypted"@,
{
    lemma_lines(uploaded@);
    lemma_lines(downloaded@);
}

/// A progress bar stands where the transfer is, and never behind its end; more detail is logged the
/// more is asked for.
pub proof fn law_progress_and_log(
    current: u64,
    total: u64,
    position: u64,
    verbose: u8,
    filter: &'static str,
)
    requires
        call_ensures(progress_position, (current, total), position),
        call_ensures(log_filter, (verbose,), filter),
    ensures
        position <= total,
        current <= total ==> position == current,
        current > total ==> position == total,
        verbose == 0 ==> filter@ == "warn"@,
        verbose == 1 ==> filter@ == "info"@,
        verbose > 1 ==> filter@ == "debug"@,
{
}

} // verus!
