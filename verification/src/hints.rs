//! What the error numbers of the open platform mean for the user.
use vstd::prelude::*;

verus! {

/// What an error number of the open platform means, where that is known.
pub open spec fn errno_hint(errno: int) -> Option<Seq<char>> {
    if errno == -1 {
        Some("当前权益已过期；请确认账号状态后重试"@)
    } else if errno == -3 {
        Some("文件不存在；请确认远端路径或文件标识是否正确"@)
    } else if errno == -6 {
        Some("身份验证失败；请检查 access_token 是否有效，并确认授权成功"@)
    } else if errno == -10 {
        Some("网盘容量不足；请清理空间后重试上传"@)
    } else if errno == -8 {
        Some("远端已存在同名文件；请更换路径，或后续支持覆盖/重命名策略后再试"@)
    } else if errno == -9 {
        Some("文件或目录不存在；请确认路径正确，或目标尚未被删除/移动"@)
    } else if errno == -7 {
        Some("文件名或路径不合法，或者当前授权无权访问该路径；请检查远端路径和应用权限"@)
    } else if errno == 1 {
        Some("百度开放平台返回未知错误；如果频繁出现，建议稍后重试或联系平台支持"@)
    } else if errno == 2 {
        Some("参数错误；请检查必填参数、参数位置以及参数值是否合法"@)
    } else if errno == 3 {
        Some("接口方法不受支持；请检查请求 method 和 API 路径是否正确"@)
    } else if errno == 4 || errno == 18 {
        Some("接口 QPS 达到上限；请降低并发或稍后重试"@)
    } else if errno == 5 {
        Some("当前客户端 IP 不在白名单内；请检查开放平台安全设置"@)
    } else if errno == 6 {
        Some("当前应用不允许接入用户数据；建议稍后重新授权，或检查应用审核状态"@)
    } else if errno == 17 {
        Some("应用已达到每日访问限额；请等待配额恢复或申请更高配额"@)
    } else if errno == 19 {
        Some("应用已达到总调用量限额；请检查控制台配额设置"@)
    } else if errno == 100 {
        Some("请求缺少 access_token 或参数不合法；请确认已登录且请求参数完整"@)
    } else if errno == 110 {
        Some("access token 无效；请重新登录以获取新的 token"@)
    } else if errno == 111 {
        Some("有其他异步任务正在执行；请稍后重试当前操作"@)
    } else if errno == 20011 {
        Some("应用仍在审核中；未上线前仅限前 10 个授权用户测试"@)
    } else if errno == 20012 {
        Some("应用访问超限；请检查应用审核状态与调用频率"@)
    } else if errno == 20013 {
        Some("当前应用缺少接口权限；请检查审核状态和已申请能力"@)
    } else if errno == 213 {
        Some("当前授权没有访问用户手机号的权限；请调整应用权限范围"@)
    } else if errno == 10 {
        Some("创建文件失败；通常是分片、文件大小或 block_list 与预上传阶段不一致"@)
    } else if errno == 31023 {
        Some("参数错误；请检查必选参数、URL 参数和表单参数是否都正确"@)
    } else if errno == 31024 {
        Some("应用没有上传权限；请先在百度网盘开放平台申请开通上传能力"@)
    } else if errno == 31034 {
        Some("命中接口频控；请降低请求频率后重试"@)
    } else if errno == 31045 {
        Some("access_token 验证未通过；请检查 token 是否过期，并确认授权包含网盘权限"@)
    } else if errno == 31061 {
        Some("文件已存在；请更换目标路径或调整重复文件处理策略"@)
    } else if errno == 31062 {
        Some("文件名无效；请检查是否包含不允许的特殊字符"@)
    } else if errno == 31064 {
        Some("上传路径错误；网盘开放平台上传路径必须符合 /apps/应用名/... 的限制"@)
    } else if errno == 31066 {
        Some("文件名不存在；请检查路径是否正确，以及目标文件是否确实存在"@)
    } else if errno == 31190 {
        Some("云端没有找到待创建文件；通常是分片上传不完整、block_list 不匹配或 size 不一致"@)
    } else if errno == 31299 {
        Some("第一个分片小于 4MB；普通用户分片大小应固定为 4MB，最后一个分片除外"@)
    } else if errno == 31326 {
        Some("命中防盗链；请确认下载请求头里带了 User-Agent: pan.baidu.com"@)
    } else if errno == 31355 {
        Some("uploadid 参数异常；请确认 create 或续传时使用的是 precreate 返回的同一个 uploadid"@)
    } else if errno == 31360 {
        Some("链接已过期；请重新获取下载链接或重新发起上传定位请求"@)
    } else if errno == 31362 {
        Some("签名错误；请检查下载链接是否完整，以及 access_token 是否正确拼接"@)
    } else if errno == 31363 {
        Some("分片缺失；请检查是否所有分片都已上传，以及 size、partseq、block_list 是否一致"@)
    } else if errno == 31364 {
        Some("分片大小超限；普通用户建议固定使用 4MB 分片"@)
    } else if errno == 31365 {
        Some("文件总大小超出当前账号等级限制；普通用户上限 4GB，会员与超级会员更高"@)
    } else {
        None
    }
}

/// What an error number of the open platform means, where that is known.
pub fn openapi_errno_hint(errno: i64) -> (result: Option<&'static str>)
    ensures
        match errno_hint(errno as int) {
            Some(hint) => result matches Some(text) && text@ == hint,
            None => result is None,
        },
{
    match errno {
        -1 => Some("当前权益已过期；请确认账号状态后重试"),
        -3 => Some("文件不存在；请确认远端路径或文件标识是否正确"),
        -6 => Some("身份验证失败；请检查 access_token 是否有效，并确认授权成功"),
        -10 => Some("网盘容量不足；请清理空间后重试上传"),
        -8 => Some("远端已存在同名文件；请更换路径，或后续支持覆盖/重命名策略后再试"),
        -9 => Some("文件或目录不存在；请确认路径正确，或目标尚未被删除/移动"),
        -7 => Some("文件名或路径不合法，或者当前授权无权访问该路径；请检查远端路径和应用权限"),
        1 => Some("百度开放平台返回未知错误；如果频繁出现，建议稍后重试或联系平台支持"),
        2 => Some("参数错误；请检查必填参数、参数位置以及参数值是否合法"),
        3 => Some("接口方法不受支持；请检查请求 method 和 API 路径是否正确"),
        4 | 18 => Some("接口 QPS 达到上限；请降低并发或稍后重试"),
        5 => Some("当前客户端 IP 不在白名单内；请检查开放平台安全设置"),
        6 => Some("当前应用不允许接入用户数据；建议稍后重新授权，或检查应用审核状态"),
        17 => Some("应用已达到每日访问限额；请等待配额恢复或申请更高配额"),
        19 => Some("应用已达到总调用量限额；请检查控制台配额设置"),
        100 => Some("请求缺少 access_token 或参数不合法；请确认已登录且请求参数完整"),
        110 => Some("access token 无效；请重新登录以获取新的 token"),
        111 => Some("有其他异步任务正在执行；请稍后重试当前操作"),
        20011 => Some("应用仍在审核中；未上线前仅限前 10 个授权用户测试"),
        20012 => Some("应用访问超限；请检查应用审核状态与调用频率"),
        20013 => Some("当前应用缺少接口权限；请检查审核状态和已申请能力"),
        213 => Some("当前授权没有访问用户手机号的权限；请调整应用权限范围"),
        10 => Some("创建文件失败；通常是分片、文件大小或 block_list 与预上传阶段不一致"),
        31023 => Some("参数错误；请检查必选参数、URL 参数和表单参数是否都正确"),
        31024 => Some("应用没有上传权限；请先在百度网盘开放平台申请开通上传能力"),
        31034 => Some("命中接口频控；请降低请求频率后重试"),
        31045 => Some("access_token 验证未通过；请检查 token 是否过期，并确认授权包含网盘权限"),
        31061 => Some("文件已存在；请更换目标路径或调整重复文件处理策略"),
        31062 => Some("文件名无效；请检查是否包含不允许的特殊字符"),
        31064 => Some("上传路径错误；网盘开放平台上传路径必须符合 /apps/应用名/... 的限制"),
        31066 => Some("文件名不存在；请检查路径是否正确，以及目标文件是否确实存在"),
        31190 => Some("云端没有找到待创建文件；通常是分片上传不完整、block_list 不匹配或 size 不一致"),
        31299 => Some("第一个分片小于 4MB；普通用户分片大小应固定为 4MB，最后一个分片除外"),
        31326 => Some("命中防盗链；请确认下载请求头里带了 User-Agent: pan.baidu.com"),
        31355 => Some("uploadid 参数异常；请确认 create 或续传时使用的是 precreate 返回的同一个 uploadid"),
        31360 => Some("链接已过期；请重新获取下载链接或重新发起上传定位请求"),
        31362 => Some("签名错误；请检查下载链接是否完整，以及 access_token 是否正确拼接"),
        31363 => Some("分片缺失；请检查是否所有分片都已上传，以及 size、partseq、block_list 是否一致"),
        31364 => Some("分片大小超限；普通用户建议固定使用 4MB 分片"),
        31365 => Some("文件总大小超出当前账号等级限制；普通用户上限 4GB，会员与超级会员更高"),
        _ => None,
    }
}

} // verus!
