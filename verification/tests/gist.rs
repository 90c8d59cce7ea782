use journal_relay::dto::login::LoginRequest;
use journal_relay::gist::{detail, gist_file_request, list, secret_gist_list_request, Request};

#[test]
fn the_request_for_the_files_of_a_gist() {
    assert_eq!(
        gist_file_request("abc"),
        Request {
            query: Some(
                "{viewer{gist(name: \"abc\") {files {encodedName,isImage,name,text}}}}".to_string()
            ),
            mutation: None,
        }
    );
}

#[test]
fn the_request_for_the_secret_gists() {
    assert_eq!(
        secret_gist_list_request(),
        Request {
            query: Some(
                "query {viewer {gists(first: 100,privacy:SECRET) {nodes {isPublic,description,id,name,url}pageInfo {hasNextPage,endCursor}}}}"
                    .to_string()
            ),
            mutation: None,
        }
    );
}

#[test]
fn detail_root_hands_out_its_files() {
    let file = detail::File {
        encoded_name: "a.md".to_string(),
        is_image: false,
        name: "a.md".to_string(),
        text: "hello".to_string(),
    };
    let root = detail::Root {
        data: detail::Data { viewer: detail::Viewer { gist: detail::Gist { files: vec![file.clone()] } } },
    };
    assert_eq!(root.into_files(), vec![file]);
    assert_eq!(detail::Root::default().into_files(), Vec::new());
}

#[test]
fn list_root_hands_out_its_gists() {
    let node = list::Node {
        is_public: false,
        description: "notes".to_string(),
        id: "G_1".to_string(),
        name: "abc".to_string(),
        url: "https://gist.github.com/abc".to_string(),
    };
    let root = list::Root {
        data: list::Data {
            viewer: list::Viewer {
                gists: list::Gists {
                    nodes: vec![node.clone(), list::Node::default()],
                    page_info: list::PageInfo { has_next_page: false, end_cursor: "x".to_string() },
                },
            },
        },
    };
    assert_eq!(root.into_nodes(), vec![node, list::Node::default()]);
}

#[test]
fn a_login_request_holds_the_password() {
    let request = LoginRequest { password: "secret".to_string() };
    assert_eq!(request.password, "secret");
}
