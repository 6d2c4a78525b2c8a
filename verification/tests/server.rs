use rf_desktop::path::Platform;
use rf_desktop::resource_manager::ResourceResponse;
use rf_desktop::server::{
    choose_mod_file, forbidden_reply, handle_passionfruit_request, handle_static_file, index_reply, passionfruit_resource,
    resource_reply, session_dir_name, session_seed, session_url, startup_refusal, static_reply,
    FileExtension, FileRoot, StaticReply, StaticStep,
};

#[test]
fn requests_open_files() {
    assert!(matches!(
        handle_static_file(""),
        StaticStep::Open("index.html")
    ));
    assert!(matches!(
        handle_static_file("//static/a.js"),
        StaticStep::Open("static/a.js")
    ));
    assert!(matches!(
        handle_static_file("mod/js/main.bundle.js"),
        StaticStep::OpenMod { update: "js/main.bundle.js", bundled: "mod/js/main.bundle.js" }
    ));
    assert_eq!(choose_mod_file("u", "b", true), (FileRoot::ModUpdate, "u"));
    assert_eq!(choose_mod_file("u", "b", false), (FileRoot::Web, "b"));
    for path in ["../a", "a/../b", "a/..", "a\\b", "/.."] {
        assert!(matches!(handle_static_file(path), StaticStep::Forbidden), "{path}");
    }
    assert!(matches!(
        handle_static_file("a..b"),
        StaticStep::Open("a..b")
    ));
}

#[test]
fn files_are_served_with_their_type() {
    let types = [
        ("html", "text/html; charset=utf-8"),
        ("js", "application/javascript; charset=utf-8"),
        ("css", "text/css; charset=utf-8"),
        ("json", "application/json"),
        ("png", "image/png"),
        ("jpg", "image/jpeg"),
        ("jpeg", "image/jpeg"),
        ("gif", "image/gif"),
        ("svg", "image/svg+xml"),
        ("ico", "image/x-icon"),
        ("mp3", "audio/mpeg"),
        ("mp4", "video/mp4"),
        ("webm", "video/webm"),
        ("yaml", "text/yaml"),
        ("yml", "text/yaml"),
        ("PNG", "application/octet-stream"),
        ("wasm", "application/octet-stream"),
    ];
    for (extension, expected) in types {
        match static_reply(Platform::Linux, "/web", "a", Some(vec![7]), FileExtension::Text(extension)) {
            StaticReply::Reply(reply) => {
                assert_eq!(reply.status, 200);
                assert_eq!(reply.content_type, Some(expected));
                assert!(reply.no_cache);
                assert_eq!(reply.body, [7]);
            }
            StaticReply::ReadIndex => unreachable!(),
        }
    }
}

fn status(reply: StaticReply) -> u16 {
    match reply {
        StaticReply::Reply(reply) => {
            assert!(reply.body.is_empty());
            assert_eq!(reply.content_type, None);
            reply.status
        }
        StaticReply::ReadIndex => panic!("the entry page is asked for"),
    }
}

#[test]
fn missing_files_and_pages() {
    assert_eq!(status(static_reply(Platform::Linux, "/web", "/etc", Some(vec![1]), FileExtension::Absent)), 403);
    assert_eq!(status(static_reply(Platform::Linux, "/web", "a", None, FileExtension::Text("js"))), 404);
    assert_eq!(status(static_reply(Platform::Linux, "/web", "a", None, FileExtension::Foreign)), 404);
    assert!(matches!(
        static_reply(Platform::Linux, "/web", "a", None, FileExtension::Absent),
        StaticReply::ReadIndex
    ));
    let refused = forbidden_reply();
    assert_eq!(refused.status, 403);
    assert_eq!(refused.content_type, None);
    assert!(refused.body.is_empty());
    let page = index_reply(Some(vec![1, 2]));
    assert_eq!(page.status, 200);
    assert_eq!(page.content_type, Some("text/html; charset=utf-8"));
    assert_eq!(page.body, [1, 2]);
    assert_eq!(index_reply(None).status, 404);
}

#[test]
fn resource_paths_are_decoded() {
    assert_eq!(handle_passionfruit_request("a/b.png"), "passionfruit/a/b.png");
    assert_eq!(handle_passionfruit_request("/a%20b%2Fc.png"), "passionfruit/a b/c.png");
    assert_eq!(
        handle_passionfruit_request("%E5%B8%B3%e8%99%9f.png"),
        "passionfruit/帳號.png"
    );
    assert_eq!(handle_passionfruit_request("100%"), "passionfruit/100%");
    assert_eq!(handle_passionfruit_request("%4g%zz%"), "passionfruit/%4g%zz%");
    assert_eq!(handle_passionfruit_request("a+b"), "passionfruit/a+b");
    assert_eq!(handle_passionfruit_request("%ff"), "passionfruit/");
    assert_eq!(handle_passionfruit_request("%2f%2Fx"), "passionfruit/x");
    assert_eq!(passionfruit_resource(Some("//x/y")), "passionfruit/x/y");
    assert_eq!(passionfruit_resource(None), "passionfruit/");
}

#[test]
fn resources_are_served_with_their_type() {
    let types = [
        (Some("png"), "image/png"),
        (Some("jpg"), "image/jpeg"),
        (Some("jpeg"), "image/jpeg"),
        (Some("gif"), "image/gif"),
        (Some("mp4"), "video/mp4"),
        (Some("webm"), "video/webm"),
        (Some("mp3"), "audio/mpeg"),
        (Some("wav"), "audio/wav"),
        (Some("svg"), "application/octet-stream"),
        (None, "application/octet-stream"),
    ];
    for (extension, expected) in types {
        let resource = ResourceResponse {
            data: vec![3],
            local_path: "k".to_string(),
            abs_path: (),
        };
        let reply = resource_reply(Ok(Some(resource)), extension);
        assert_eq!(reply.status, 200);
        assert_eq!(reply.content_type, Some(expected));
        assert!(!reply.no_cache);
        assert_eq!(reply.body, [3]);
    }
    assert_eq!(resource_reply::<()>(Ok(None), None).status, 404);
    assert_eq!(resource_reply::<()>(Err("x".to_string()), None).status, 502);
}

#[test]
fn sessions_are_apart() {
    assert_eq!(session_dir_name(12), "12");
    assert_eq!(session_seed(12), "main-slot:12");
    assert_eq!(
        session_url("http://127.0.0.1:5000", 12),
        "http://127.0.0.1:5000/?rf_account_slot=12"
    );
    assert_ne!(session_seed(1), session_seed(2));
    assert_eq!(startup_refusal(true), Some("ReversedFront 正在更新，請稍後再啟動"));
    assert_eq!(startup_refusal(false), None);
}
