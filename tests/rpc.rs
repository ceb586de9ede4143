use hot_reload::objects::{FlutterView, FlutterViewList, IsolateRef2};
use hot_reload::rpc::{Response, VMServiceCoordinator, VMServiceMethod, VMServiceMethods};

#[test]
fn method_ids_count_up_from_zero() {
    let mut methods = VMServiceMethods::new();
    assert_eq!(methods.peek_id(), 0);
    let a = methods.register_service("reloadSources", "flutter tools");
    let b = methods.create_devfs("flutter_gallery");
    let c = methods.list_views();
    let d = methods.delete_devfs("flutter_gallery");
    let e = methods.reload_sources("isolates/1", false, "file:///root.dill", "file:///.packages");
    let f = methods.reassemble("isolates/1");
    assert_eq!([a.id(), b.id(), c.id(), d.id(), e.id(), f.id()], [0, 1, 2, 3, 4, 5]);
    assert_eq!(methods.peek_id(), 6);
}

#[test]
fn methods_carry_their_parameters() {
    let mut methods = VMServiceMethods::new();
    match methods.reload_sources("isolates/7", true, "root", "pkgs") {
        VMServiceMethod::ReloadSources { id, params } => {
            assert_eq!(id, 0);
            assert_eq!(params.isolate_id, "isolates/7");
            assert!(params.pause);
            assert_eq!(params.root_lib_uri, "root");
            assert_eq!(params.packages_uri, "pkgs");
        }
        _ => panic!("wrong method"),
    }
    match methods.register_service("svc", "alias") {
        VMServiceMethod::RegisterService { id, params } => {
            assert_eq!(id, 1);
            assert_eq!(params.service, "svc");
            assert_eq!(params.alias, "alias");
        }
        _ => panic!("wrong method"),
    }
}

#[test]
fn responses_reach_callers_in_any_order() {
    let mut methods = VMServiceMethods::new();
    let mut table: VMServiceCoordinator<&'static str> = VMServiceCoordinator::new();
    let first = methods.list_views();
    let second = methods.create_devfs("fs");
    let third = methods.reassemble("isolates/1");
    table.post_job(&first, "first caller");
    table.post_job(&second, "second caller");
    table.post_job(&third, "third caller");
    assert_eq!(table.complete_job(third.id()), Some("third caller"));
    assert_eq!(table.complete_job(first.id()), Some("first caller"));
    assert_eq!(table.complete_job(second.id()), Some("second caller"));
    assert!(!table.is_pending(first.id()));
}

#[test]
fn unmatched_response_is_dropped() {
    let mut table: VMServiceCoordinator<u8> = VMServiceCoordinator::new();
    let mut methods = VMServiceMethods::new();
    let call = methods.list_views();
    table.post_job(&call, 7);
    assert_eq!(table.complete_job(42), None);
    assert!(table.is_pending(call.id()));
    assert_eq!(table.complete_job(call.id()), Some(7));
    assert_eq!(table.complete_job(call.id()), None);
}

#[test]
fn call_resolves_to_result() {
    let r = Response { id: 1, result: Some(serde_json::Value::Bool(true)), error: None };
    assert_eq!(r.into_call_result(), Ok(serde_json::Value::Bool(true)));
}

#[test]
fn call_without_result_is_remote_error() {
    let err = serde_json::Value::String("boom".to_string());
    let r = Response { id: 1, result: None, error: Some(err.clone()) };
    assert_eq!(r.into_call_result(), Err(Some(err)));
}

#[test]
fn notification_reads_only_error() {
    let ok = Response { id: 2, result: None, error: None };
    assert_eq!(ok.into_notification_result(), Ok(()));
    let err = serde_json::Value::from(-32000);
    let bad = Response { id: 2, result: Some(serde_json::Value::Null), error: Some(err.clone()) };
    assert_eq!(bad.into_notification_result(), Err(err));
}

#[test]
fn view_list_gives_isolate_ids() {
    let views = FlutterViewList {
        views: vec![
            FlutterView {
                id: "_flutterView/0".to_string(),
                isolate: IsolateRef2 { id: "isolates/11".to_string(), number: 11, name: "main".to_string() },
            },
            FlutterView {
                id: "_flutterView/1".to_string(),
                isolate: IsolateRef2 { id: "isolates/12".to_string(), number: 12, name: "second".to_string() },
            },
        ],
    };
    assert_eq!(views.isolate_ids(), vec!["isolates/11".to_string(), "isolates/12".to_string()]);
}
