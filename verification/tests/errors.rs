use url_balancing::error::{AppError, AppErrorKind, ErrorReply, ErrorResponse};
use url_balancing::value::{Form, Value};

fn s(text: &str) -> String {
    text.to_string()
}

#[test]
fn codes_count_the_kinds_from_zero() {
    let kinds = [
        AppErrorKind::HTTPNotFound,
        AppErrorKind::OAuth2RequestToken,
        AppErrorKind::Request,
        AppErrorKind::UrlParse,
        AppErrorKind::Redis,
        AppErrorKind::MySQL,
        AppErrorKind::KeyNotFound,
        AppErrorKind::StateNotFound,
        AppErrorKind::Token,
        AppErrorKind::Unauthorized,
        AppErrorKind::Invalid,
        AppErrorKind::Limit,
        AppErrorKind::Unknown,
        AppErrorKind::Conflict,
    ];
    for (i, kind) in kinds.iter().enumerate() {
        assert_eq!(kind.code() as usize, i);
    }
}

#[test]
fn an_error_has_the_kind_and_code_of_its_variant() {
    assert_eq!(AppError::KeyNotFound.kind(), AppErrorKind::KeyNotFound);
    assert_eq!(AppError::KeyNotFound.code(), 6);
    assert_eq!(AppError::Redis(s("x")).kind(), AppErrorKind::Redis);
    assert_eq!(AppError::Redis(s("x")).code(), 4);
    assert_eq!(AppError::MySQL(s("x")).code(), 5);
    assert_eq!(AppError::Limit.code(), 11);
    assert_eq!(AppError::Unknown.code(), 12);
    assert_eq!(AppError::Conflict.code(), 13);
    assert_eq!(AppError::Token(s("x")).kind(), AppErrorKind::Token);
    assert_eq!(AppError::OAuth2RequestToken(s("x")).code(), 1);
    assert_eq!(AppError::Request(s("x")).code(), 2);
    assert_eq!(AppError::UrlParse(s("x")).code(), 3);
}

#[test]
fn messages() {
    assert_eq!(AppError::HTTPNotFound.message(), "404 Not Found");
    assert_eq!(AppError::OAuth2RequestToken(s("bad")).message(), "请求令牌错误: bad");
    assert_eq!(AppError::Request(s("timeout")).message(), "请求错误: timeout");
    assert_eq!(AppError::UrlParse(s("ignored")).message(), "url解析失败");
    assert_eq!(AppError::Redis(s("refused")).message(), "Redis错误: refused");
    assert_eq!(AppError::MySQL(s("gone")).message(), "MySQL错误: gone");
    assert_eq!(AppError::KeyNotFound.message(), "Key not found");
    assert_eq!(AppError::StateNotFound.message(), "state过期或不存在");
    assert_eq!(AppError::Token(s("expired")).message(), "token异常: expired");
    assert_eq!(AppError::Unauthorized.message(), "未认证");
    assert_eq!(AppError::Invalid.message(), "无效的响应");
    assert_eq!(AppError::Limit.message(), "数量达到上限");
    assert_eq!(AppError::Unknown.message(), "未知错误");
    assert_eq!(AppError::Conflict.message(), "Key already exists");
}

#[test]
fn a_missing_route_is_a_plain_404() {
    let reply = AppError::HTTPNotFound.into_response();
    assert_eq!(reply.status(), 404);
    assert_eq!(reply, ErrorReply::NotFound(s("404 Not Found")));
}

#[test]
fn any_other_error_is_reported_with_status_200() {
    let reply = AppError::Limit.into_response();
    assert_eq!(reply.status(), 200);
    assert_eq!(reply, ErrorReply::Reported(ErrorResponse { code: 11, error: s("数量达到上限") }));
    let reply = AppError::Redis(s("refused")).into_response();
    assert_eq!(
        reply,
        ErrorReply::Reported(ErrorResponse { code: 4, error: s("Redis错误: refused") })
    );
}

#[test]
fn values_are_read_in_their_own_form_only() {
    assert_eq!(Value::Unit.form(), Form::Unit);
    assert_eq!(Value::Rank(None).form(), Form::Rank);
    assert_eq!(Value::Unit.into_unit(), Ok(()));
    assert_eq!(Value::Flag(true).into_unit(), Err(AppError::Invalid));
    assert_eq!(Value::Flag(true).into_flag(), Ok(true));
    assert_eq!(Value::Unit.into_flag(), Err(AppError::Invalid));
    assert_eq!(Value::Member(Some(s("a"))).into_member(), Ok(Some(s("a"))));
    assert_eq!(Value::Members(vec![]).into_member(), Err(AppError::Invalid));
    assert_eq!(Value::Members(vec![s("a")]).into_members(), Ok(vec![s("a")]));
    assert_eq!(Value::Count(1).into_members(), Err(AppError::Invalid));
    assert_eq!(Value::MaybeKey(None).into_maybe_key(), Ok(None));
    assert_eq!(Value::Unit.into_maybe_key(), Err(AppError::Invalid));
    assert_eq!(Value::Keys(vec![]).into_keys(), Ok(vec![]));
    assert_eq!(Value::Unit.into_keys(), Err(AppError::Invalid));
    assert_eq!(Value::Unit.into_key(), Err(AppError::Invalid));
}
