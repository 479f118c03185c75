use nps::dao::channel_dao::Channel;
use nps::web::controller::channel::{edit_channel, starts_listening};
use nps::nps::nps_timer::TrafficStats;
use nps::web::controller::channel::{edit_failure, EditFailure};
use nps::web::controller::chart::group_by_label;
use nps::web::controller::index::total_traffic;
use nps::application::{begin_restart, is_need_restart, is_restarting, restart_args, restart_mark, RestartFlags};
use nps::dao::client_dao::select_by_key;
use nps::dao::QueryModel;
use nps::extension::number::NumberExtension;
use nps::nps::nps_timer::ChannelSample;
use nps::model::data_io_len::DataIOLen;
use nps::web::controller::chart::{data_unit, get_current_len, label_format, max_data_size, ChartParam};
use nps::web::controller::client::ClientEdit;
use nps::web::controller::common::global;
use nps::web::controller::login::{do_login, LoggedInfo, LoginForm, LoginOutcome, LoginState};
use nps::web::controller::validate::form_error_message;
use nps::web::extract::{answer_body, error_handler, invalid_error_handler, not_found_error_handler, path_error_handler, RequestError};

fn format_text(r: RequestError) -> String {
    match r {
        RequestError::Format(m) => m,
        _ => panic!("expected a format error"),
    }
}

#[test]
fn missing_field_names_the_field() {
    match error_handler("Failed to deserialize query string: missing field `age`") {
        RequestError::MissingField(f) => assert_eq!(f, "age"),
        _ => panic!("expected a missing field"),
    }
    match not_found_error_handler("missing field `pwd` at line 1 column 14") {
        RequestError::MissingField(f) => assert_eq!(f, "pwd"),
        _ => panic!("expected a missing field"),
    }
    assert_eq!(format_text(not_found_error_handler("no ticks")), "请求数据格式错误: no ticks");
}

#[test]
fn conversion_failure_names_field_and_reason() {
    match error_handler("Failed to deserialize form body: name: invalid digit found in string") {
        RequestError::InvalidField { field, message } => {
            assert_eq!(field, "name");
            assert_eq!(message, "无效的数字格式");
        }
        _ => panic!("expected an invalid field"),
    }
    match invalid_error_handler("Failed to deserialize query string: age: cannot parse integer from empty string") {
        RequestError::InvalidField { field, message } => {
            assert_eq!(field, "age");
            assert_eq!(message, "不能将空字符串转换为数字");
        }
        _ => panic!("expected an invalid field"),
    }
    match invalid_error_handler("Failed to deserialize the JSON body into the target type: age: invalid type: string \"30a\", expected u32 at line 1 column 25") {
        RequestError::InvalidField { field, message } => {
            assert_eq!(field, "age");
            assert_eq!(message, "类型转换失败");
        }
        _ => panic!("expected an invalid field"),
    }
    assert_eq!(format_text(invalid_error_handler("one: colon")), "请求数据格式错误: one: colon");
}

#[test]
fn other_failures_are_format_errors() {
    assert_eq!(format_text(error_handler("Something else")), "请求数据格式错误: Something else");
}

#[test]
fn path_failure_names_value_and_type() {
    assert_eq!(
        format_text(path_error_handler("Cannot parse `abc` to a `i64`")),
        "无法将路径参数的值 'abc' 转换为目标'i64' 类型"
    );
    assert_eq!(format_text(path_error_handler("Cannot parse `x`")), "请求数据格式错误: Cannot parse `x`");
    assert_eq!(format_text(path_error_handler("Wrong number")), "请求数据格式错误: Wrong number");
}

#[test]
fn login_counts_failures_and_locks() {
    let mut state = LoginState::new();
    let mut logged = LoggedInfo { token: String::new(), last_time: 0 };
    let bad = LoginForm::new("admin".to_string(), "nope".to_string());
    for i in 0..11u8 {
        assert!(matches!(do_login(&mut state, &mut logged, &bad, "admin", "secret"), LoginOutcome::WrongCredentials(_)));
        assert_eq!(state.error_count, i + 1);
    }
    let good = LoginForm::new("admin".to_string(), "secret".to_string());
    match do_login(&mut state, &mut logged, &good, "admin", "secret") {
        LoginOutcome::TooManyErrors(m) => assert_eq!(m, "用户名或密码错误次数超过限制，请联系管理员。"),
        _ => panic!("locked"),
    }
    assert_eq!(state.error_count, 11);
    assert!(logged.token.is_empty());
}

#[test]
fn login_success_clears_the_count() {
    let mut state = LoginState { error_count: 3 };
    let mut logged = LoggedInfo { token: String::new(), last_time: 0 };
    let good = LoginForm::new("admin".to_string(), "secret".to_string());
    match do_login(&mut state, &mut logged, &good, "admin", "secret") {
        LoginOutcome::Success(t) => {
            assert_eq!(t.len(), 32);
            assert!(t.chars().all(|c| c.is_ascii_alphanumeric()));
            assert_eq!(logged.token, t);
        }
        _ => panic!("expected a login"),
    }
    assert_eq!(state.error_count, 0);
    assert!(logged.last_time > 0);
}

#[test]
fn empty_login_fields_are_refused() {
    let mut state = LoginState::new();
    let mut logged = LoggedInfo { token: String::new(), last_time: 0 };
    let empty = LoginForm::new(String::new(), String::new());
    match do_login(&mut state, &mut logged, &empty, "admin", "secret") {
        LoginOutcome::InvalidForm(m) => assert_eq!(m, "表单验证失败: name: 用户名不能为空, pwd: 密码不能为空"),
        _ => panic!("expected a form error"),
    }
    assert_eq!(state.error_count, 0);
}

#[test]
fn client_form_limits_lengths() {
    let e = ClientEdit { id: 1, name: "x".repeat(33), version: 0, key: "k".to_string(), remark: None };
    let errs = e.validate();
    assert_eq!(errs.len(), 1);
    assert_eq!(errs[0].field, "name");
    assert_eq!(form_error_message(&errs), "表单验证失败: name: 名称不能为空;长度不能超过32位");
    let ok = ClientEdit { id: 1, name: "名".repeat(32), version: 0, key: "k".to_string(), remark: None };
    assert!(ok.validate().is_empty());
}

fn sample(channel_id: i64, client_id: i64, i: u64, o: u64) -> ChannelSample {
    ChannelSample { channel_id, client_id, data_len: DataIOLen { in_len: i, out_len: o } }
}

#[test]
fn chart_counts_by_channel_client_or_all() {
    let s = vec![sample(1, 10, 5, 6), sample(2, 10, 1, 1), sample(3, 20, 100, 0)];
    let by_channel = ChartParam { client_id: None, channel_id: Some(2), forward_id: None };
    assert_eq!(get_current_len(&by_channel, &s), "1:1");
    let missing = ChartParam { client_id: None, channel_id: Some(9), forward_id: None };
    assert_eq!(get_current_len(&missing, &s), "0:0");
    let by_client = ChartParam { client_id: Some(10), channel_id: None, forward_id: None };
    assert_eq!(get_current_len(&by_client, &s), "6:7");
    let all = ChartParam { client_id: None, channel_id: None, forward_id: None };
    assert_eq!(get_current_len(&all, &s), "106:7");
}

#[test]
fn chart_scales_follow_the_period_and_size() {
    assert_eq!(label_format(60), "%Y-%m-%d %H:%M:%S");
    assert_eq!(label_format(61), "%Y-%m-%d %H:%M");
    assert_eq!(label_format(86400), "%Y-%m-%d %H");
    assert_eq!(label_format(86401), "%Y-%m-%d");
    assert_eq!(label_format(31 * 86400 + 1), "%Y-%m");
    assert_eq!(label_format(366 * 86400 + 1), "%Y");
    assert_eq!(data_unit(1024), (1, "B"));
    assert_eq!(data_unit(1025), (1024, "KB"));
    assert_eq!(data_unit(1024 * 1024 + 1), (1024 * 1024, "MB"));
    assert_eq!(data_unit(1024 * 1024 * 1024 + 1), (1024 * 1024 * 1024, "GB"));
    assert_eq!(max_data_size(&vec![DataIOLen { in_len: 3, out_len: 9 }, DataIOLen { in_len: 4, out_len: 1 }]), 9);
    assert_eq!(max_data_size(&vec![]), 0);
}

#[test]
fn durations_and_dates_are_formatted() {
    assert_eq!(5_000u64.time_format(), "00:05");
    assert_eq!(3_723_000u64.time_format(), "01:02:03");
    assert_eq!(360_000_000u64.time_format(), "100:00:00");
    assert_eq!((-5i32).time_format(), "00:00");
    assert_eq!(0u64.date_format(), "");
    assert_eq!((-3i64).date_format(), "");
    assert_eq!(1_700_000_000_000u64.date_format().len(), 19);
}

#[test]
fn restart_flags_and_arguments() {
    let mut flags = RestartFlags::new();
    assert!(!is_need_restart(&flags));
    restart_mark(&mut flags);
    assert!(is_need_restart(&flags));
    let g = global(&flags);
    assert!(g.is_need_restart && !g.is_restarting);
    begin_restart(&mut flags);
    assert!(!is_need_restart(&flags) && is_restarting(&flags));
    let args = vec!["-x".to_string()];
    assert_eq!(restart_args(&args, false), vec!["-x".to_string(), "--is-restart-mode".to_string()]);
    assert_eq!(restart_args(&args, true), vec!["-x".to_string()]);
}

#[test]
fn client_lookup_and_query_defaults() {
    let mut a = nps::dao::client_dao::Client::default();
    a.id = 1;
    a.key = "k1".to_string();
    let mut b = nps::dao::client_dao::Client::default();
    b.id = 2;
    b.key = "k2".to_string();
    let clients = vec![a, b];
    assert_eq!(select_by_key(&clients, "k2").map(|c| c.id), Some(2));
    assert!(select_by_key(&clients, "k3").is_none());
    assert!(matches!(QueryModel::<i64>::default(), QueryModel::Unconditioned));
}

#[test]
fn labels_are_summed_once_each() {
    let entries = vec![
        ("10:00".to_string(), DataIOLen { in_len: 1, out_len: 2 }),
        ("10:01".to_string(), DataIOLen { in_len: 5, out_len: 0 }),
        ("10:00".to_string(), DataIOLen { in_len: 3, out_len: 4 }),
    ];
    let g = group_by_label(&entries);
    assert_eq!(g.len(), 2);
    for (label, d) in &g {
        if label == "10:00" {
            assert_eq!(*d, DataIOLen { in_len: 4, out_len: 6 });
        } else {
            assert_eq!(label, "10:01");
            assert_eq!(*d, DataIOLen { in_len: 5, out_len: 0 });
        }
    }
    assert!(group_by_label(&vec![]).is_empty());
}

#[test]
fn status_traffic_adds_waiting_growth() {
    let stat = |i: i64, o: i64| TrafficStats { forward_id: 0, client_id: 1, channel_id: 1, date: 0, in_len: i, out_len: o };
    let t = total_traffic(100, 200, &vec![stat(1, 2), stat(3, 4)], &vec![stat(10, 20)]);
    assert_eq!(t, DataIOLen { in_len: 114, out_len: 226 });
}

#[test]
fn port_conflict_is_reported_on_the_field() {
    match edit_failure("UNIQUE constraint failed: channel.server_port") {
        EditFailure::Field { field, message } => {
            assert_eq!(field, "serverPort");
            assert_eq!(message, "该服务器端口已被其他隧道占用，请换一个端口。");
        }
        _ => panic!("expected a field error"),
    }
    match edit_failure("disk full") {
        EditFailure::Business(m) => assert_eq!(m, "disk full"),
        _ => panic!("expected a business error"),
    }
}

#[test]
fn client_page_texts_and_toggle() {
    assert_eq!(nps::web::controller::client::enable_state_text(0), "关闭");
    assert_eq!(nps::web::controller::client::enable_state_text(2), "开启");
    assert_eq!(nps::web::controller::client::online_state_text(true), "在线");
    assert_eq!(nps::web::controller::client::online_state_text(false), "离线");
    assert_eq!(nps::web::controller::client::toggle_enable_state(0), (1, false));
    assert_eq!(nps::web::controller::client::toggle_enable_state(1), (0, true));
    match nps::web::controller::client::edit_failure("UNIQUE constraint failed: client.key") {
        EditFailure::Field { field, message } => {
            assert_eq!(field, "key");
            assert_eq!(message, "该秘钥已被其他客户端使用，请换一个秘钥。");
        }
        _ => panic!("expected a field error"),
    }
}

#[test]
fn dropdown_lists_names_and_ids() {
    let mut c = nps::dao::client_dao::Client::default();
    c.id = 42;
    c.name = "office".to_string();
    let mut ch = nps::dao::channel_dao::Channel::default();
    ch.id = -7;
    ch.name = "ssh".to_string();
    let clients = vec![c];
    let channels = vec![ch];
    let a = nps::web::controller::common::dropdown("client", &clients, &channels);
    assert_eq!(a.len(), 1);
    assert_eq!((a[0].label.as_str(), a[0].value.as_str()), ("office", "42"));
    let b = nps::web::controller::common::dropdown("channel", &clients, &channels);
    assert_eq!((b[0].label.as_str(), b[0].value.as_str()), ("ssh", "-7"));
    assert!(nps::web::controller::common::dropdown("other", &clients, &channels).is_empty());
    assert_eq!(
        format_text(nps::web::extract::form_error_handler("Failed to deserialize form body: x")),
        "请求数据格式错误: Failed to deserialize form body: x"
    );
}

#[test]
fn dates_beyond_the_calendar_are_refused() {
    assert_eq!(nps::extension::number::try_date_format(&0u64), Some(String::new()));
    assert_eq!(nps::extension::number::try_date_format(&9_000_000_000_000_000_000u64), None);
    assert_eq!(nps::extension::number::try_date_format(&1_700_000_000_000i64).map(|s| s.len()), Some(19));
}

#[test]
fn documented_failure_texts_are_answered() {
    let missing = [
        ("Failed to deserialize the JSON body into the target type: missing field `age` at line 1 column 14", "age"),
        ("Failed to deserialize query string: missing field `age`", "age"),
        ("Failed to deserialize form body: missing field `pwd`", "pwd"),
    ];
    for (text, field) in missing {
        match error_handler(text) {
            RequestError::MissingField(f) => assert_eq!(f, field),
            _ => panic!("expected a missing field for {}", text),
        }
    }
    let invalid = [
        ("Failed to deserialize form body: name: invalid digit found in string", "name", "无效的数字格式"),
        ("Failed to deserialize the JSON body into the target type: age: invalid type: string \"30a\", expected u32 at line 1 column 25", "age", "类型转换失败"),
        ("Failed to deserialize query string: age: invalid digit found in string", "age", "无效的数字格式"),
        ("Failed to deserialize form body: name: cannot parse integer from empty string", "name", "不能将空字符串转换为数字"),
        ("Failed to deserialize query string: age: cannot parse integer from empty string", "age", "不能将空字符串转换为数字"),
        ("Failed to deserialize the JSON body into the target type: age: invalid type: string \"\"", "age", "类型转换失败"),
    ];
    for (text, field, message) in invalid {
        match error_handler(text) {
            RequestError::InvalidField { field: f, message: m } => {
                assert_eq!(f, field);
                assert_eq!(m, message);
            }
            _ => panic!("expected an invalid field for {}", text),
        }
    }
}

#[test]
fn field_error_body_has_one_field() {
    let r = nps::web::model::field_error("serverPort", "taken");
    assert_eq!(r.code, 2);
    assert_eq!(r.msg, "表单验证失败");
    assert_eq!(r.data, vec![("serverPort".to_string(), vec!["taken".to_string()])]);
}

#[test]
fn clock_readings_convert() {
    assert_eq!(nps::util::time_util::millis_of(None), 0);
    assert_eq!(nps::util::time_util::millis_of(Some(1_700_000_000_123)), 1_700_000_000_123);
    assert_eq!(nps::util::time_util::millis_of(Some((1u128 << 64) + 5)), 5);
    assert_eq!(nps::util::time_util::millis_u128_of(Some(7)), 7);
    assert_eq!(nps::util::time_util::millis_u128_of(None), 0);
    assert_eq!(nps::util::time_util::secs_of(Some(9)), 9);
    assert_eq!(nps::util::time_util::secs_of(None), 0);
    assert!(nps::util::time_util::current_secs() > 0);
}

#[test]
fn error_answers_carry_the_field_messages() {
    let invalid = error_handler("Failed to deserialize query string: age: invalid digit found in string");
    let body = answer_body(&invalid).unwrap();
    assert_eq!(body.code, 2);
    assert_eq!(body.msg, "表单验证失败");
    assert_eq!(body.data, vec![("age".to_string(), vec!["无效的数字格式".to_string()])]);
    let missing = error_handler("Failed to deserialize form body: missing field `pwd`");
    let body = answer_body(&missing).unwrap();
    assert_eq!(body.code, 2);
    assert_eq!(body.msg, "表单验证失败");
    assert_eq!(body.data, vec![("pwd".to_string(), vec!["该字段必须".to_string()])]);
    assert!(answer_body(&RequestError::Format("x".to_string())).is_none());
}

fn channel_form(id: i64) -> nps::web::controller::channel::ChannelEdit {
    nps::web::controller::channel::ChannelEdit {
        id,
        client_id: 7,
        name: "web".to_string(),
        mode: 1,
        server_port: 8080,
        target_port: "80".to_string(),
        security_state: 0,
        remark: Some("r".to_string()),
        version: 3,
    }
}

#[test]
fn new_channel_starts_enabled() {
    let c = edit_channel(channel_form(0), None).unwrap();
    assert_eq!(c.enable_state, 1);
    assert_eq!(c.id, 0);
    assert_eq!(c.client_id, 7);
    assert_eq!(c.name, "web");
    assert_eq!(c.server_port, 8080);
    assert_eq!(c.target_port, "80");
    assert_eq!(c.remark, Some("r".to_string()));
    assert_eq!(c.version, 3);
    assert_eq!(c.in_data, 0);
    assert!(starts_listening(&c, true));
    assert!(!starts_listening(&c, false));
}

#[test]
fn edited_channel_keeps_stored_state() {
    let stored = Channel { id: 5, in_data: 100, out_data: 200, enable_state: 0, created_at: 9, ..Channel::default() };
    let c = edit_channel(channel_form(5), Some(stored)).unwrap();
    assert_eq!(c.id, 5);
    assert_eq!(c.name, "web");
    assert_eq!(c.in_data, 100);
    assert_eq!(c.out_data, 200);
    assert_eq!(c.created_at, 9);
    assert_eq!(c.enable_state, 0);
    assert!(!starts_listening(&c, true));
    match edit_channel(channel_form(5), None) {
        Err(m) => assert_eq!(m, "未找到隧道信息"),
        Ok(_) => panic!("a missing tunnel is an error"),
    }
}

#[test]
fn status_counts_sum_the_live_tables() {
    let r = nps::web::controller::index::status_counts(&vec![2, 3], &vec![1, 0, 4], &vec![]);
    assert_eq!(r.online_client_count, 2);
    assert_eq!(r.tcp_pool_count, 5);
    assert_eq!(r.channel_count, 3);
    assert_eq!(r.tcp_bridge_count, 5);
    assert_eq!(r.forward_count, 0);
    assert_eq!(r.forward_bridge_count, 0);
}

#[test]
fn dates_end_at_chrono_range() {
    assert!(nps::extension::number::try_date_format(&8_210_266_876_799_999i64).is_some());
    assert!(nps::extension::number::try_date_format(&8_210_266_876_800_000i64).is_none());
    assert!(nps::extension::number::try_date_format(&18_438_409_472_480_751_616u64).is_some());
    assert!(nps::extension::number::try_date_format(&18_438_409_472_480_751_615u64).is_none());
}

fn io(date: i64, i: u64, o: u64) -> (i64, DataIOLen) {
    (date, DataIOLen { in_len: i, out_len: o })
}

fn period(start_time: i64, end_time: i64) -> nps::web::controller::chart::DataLenQuery {
    nps::web::controller::chart::DataLenQuery { client_id: None, channel_id: None, forward_id: None, start_time, end_time }
}

#[test]
fn history_counts_walk_the_period() {
    let rows = vec![io(1_700_000_000, 10, 20), io(1_700_000_000, 5, 5), io(1_700_000_002, 1, 1)];
    let c = nps::web::controller::chart::data_len_counts(&period(1_700_000_000, 1_700_000_002), &rows);
    assert_eq!(c.labels.len(), 3);
    assert_eq!(c.in_lens, vec![15, 0, 1]);
    assert_eq!(c.out_lens, vec![25, 0, 1]);
    assert_eq!(c.row_labels.len(), 3);
    assert_eq!(c.row_labels[0], c.labels[0]);
    assert_eq!(c.row_labels[2], c.labels[2]);
    assert_eq!(c.max_size, 25);
    assert_eq!((c.unit_size, c.unit.as_str()), (1, "B"));
    let none = nps::web::controller::chart::data_len_counts(&period(10, 5), &rows);
    assert!(none.labels.is_empty());
    let months = nps::web::controller::chart::data_len_counts(&period(1_700_000_000, 1_700_000_000 + 100 * 86_400), &vec![io(1_700_000_000, 2_000_000, 0)]);
    assert_eq!(months.labels.len(), 4);
    assert_eq!(months.in_lens[0], 2_000_000);
    assert_eq!((months.unit_size, months.unit.as_str()), (1_048_576, "MB"));
}

#[test]
fn friendly_size_units() {
    assert_eq!(nps::extension::number::size_unit(1023), (1, "Byte"));
    assert_eq!(nps::extension::number::size_unit(1024), (1024, "KB"));
    assert_eq!(nps::extension::number::size_unit(5 << 20), (1 << 20, "MB"));
    assert_eq!(nps::extension::number::size_unit(1 << 40), (1 << 40, "TB"));
}
