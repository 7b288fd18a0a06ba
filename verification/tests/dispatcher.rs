use fibers_http_server::dispatcher::{DispatcherBuilder, Path, Segment, Trie};
use fibers_http_server::{ErrorKind, Status};
use url::Url;

fn url(path: &str) -> Url {
    Url::parse(&format!("http://localhost{}", path)).unwrap()
}

#[test]
fn dispatcher_works() {
    let mut builder = DispatcherBuilder::new();
    builder.register_handler("GET", "/", 0).unwrap();
    builder.register_handler("GET", "/foo/bar", 1).unwrap();
    builder.register_handler("PUT", "/foo/bar/", 2).unwrap();
    builder.register_handler("GET", "/aaa/*/bbb", 3).unwrap();
    builder.register_handler("GET", "/111/**", 4).unwrap();

    let trie = builder.finish();
    assert!(trie.dispatch("GET", url("/").path()).is_ok());
    assert!(trie.dispatch("PUT", url("/").path()).is_err());
    assert!(trie.dispatch("GET", url("/f").path()).is_err());
    assert!(trie.dispatch("GET", url("/foo/bar").path()).is_ok());
    assert!(trie.dispatch("GET", url("/foo/bar/").path()).is_err());
    assert!(trie.dispatch("PUT", url("/foo/bar/").path()).is_ok());
    assert!(trie.dispatch("GET", url("/aaa/0/bbb").path()).is_ok());
    assert!(trie.dispatch("GET", url("/aaa/012/bbb").path()).is_ok());
    assert!(trie.dispatch("GET", url("/aaa/bbb").path()).is_err());
    assert!(trie.dispatch("GET", url("/aaa/0/bbb/").path()).is_err());
    assert!(trie.dispatch("GET", url("/111/").path()).is_ok());
    assert!(trie.dispatch("GET", url("/111/222").path()).is_ok());
    assert!(trie.dispatch("GET", url("/111/222/").path()).is_ok());
    assert!(trie.dispatch("GET", url("/111/222/333").path()).is_ok());
}

#[test]
fn dispatch_returns_the_registered_handler() {
    let mut builder = DispatcherBuilder::new();
    builder.register_handler("GET", "/", 0).unwrap();
    builder.register_handler("GET", "/foo/bar", 1).unwrap();
    builder.register_handler("PUT", "/foo/bar/", 2).unwrap();
    builder.register_handler("GET", "/aaa/*/bbb", 3).unwrap();
    builder.register_handler("GET", "/111/**", 4).unwrap();
    builder.register_handler("POST", "/foo/bar", 5).unwrap();
    let dispatcher = builder.finish();

    assert_eq!(dispatcher.dispatch("GET", "/"), Ok(&0));
    assert_eq!(dispatcher.dispatch("GET", "/foo/bar"), Ok(&1));
    assert_eq!(dispatcher.dispatch("POST", "/foo/bar"), Ok(&5));
    assert_eq!(dispatcher.dispatch("PUT", "/foo/bar/"), Ok(&2));
    assert_eq!(dispatcher.dispatch("GET", "/aaa/0/bbb"), Ok(&3));
    assert_eq!(dispatcher.dispatch("GET", "/aaa//bbb"), Ok(&3));
    assert_eq!(dispatcher.dispatch("GET", "/111/"), Ok(&4));
    assert_eq!(dispatcher.dispatch("GET", "/111/222/333"), Ok(&4));
}

#[test]
fn dispatch_tells_not_found_from_method_not_allowed() {
    let mut builder = DispatcherBuilder::new();
    builder.register_handler("GET", "/", 0).unwrap();
    builder.register_handler("GET", "/foo/bar", 1).unwrap();
    builder.register_handler("GET", "/aaa/*/bbb", 3).unwrap();
    builder.register_handler("GET", "/111/**", 4).unwrap();
    let dispatcher = builder.finish();

    // no matcher applies
    assert_eq!(dispatcher.dispatch("GET", "/f"), Err(Status::NotFound));
    assert_eq!(dispatcher.dispatch("GET", "/foo/bar/"), Err(Status::NotFound));
    assert_eq!(dispatcher.dispatch("GET", "/foo/bar/baz"), Err(Status::NotFound));
    assert_eq!(dispatcher.dispatch("GET", "/aaa/0/ccc"), Err(Status::NotFound));
    assert_eq!(dispatcher.dispatch("GET", "/aaa/0/bbb/"), Err(Status::NotFound));
    // the path leads to a node, which has no handler for the method
    assert_eq!(dispatcher.dispatch("PUT", "/"), Err(Status::MethodNotAllowed));
    assert_eq!(dispatcher.dispatch("DELETE", "/foo/bar"), Err(Status::MethodNotAllowed));
    assert_eq!(dispatcher.dispatch("GET", "/foo"), Err(Status::MethodNotAllowed));
    assert_eq!(dispatcher.dispatch("GET", "/aaa/bbb"), Err(Status::MethodNotAllowed));
    assert_eq!(dispatcher.dispatch("GET", "/111"), Err(Status::MethodNotAllowed));
    assert_eq!(dispatcher.dispatch("get", "/foo/bar"), Err(Status::MethodNotAllowed));
}

#[test]
fn dispatch_of_a_path_without_segments_is_not_found() {
    let mut builder = DispatcherBuilder::new();
    builder.register_handler("GET", "/", 0).unwrap();
    let dispatcher = builder.finish();
    assert_eq!(dispatcher.dispatch("GET", ""), Err(Status::NotFound));
    assert_eq!(dispatcher.dispatch("GET", "foo"), Err(Status::NotFound));
}

#[test]
fn dispatch_on_an_empty_dispatcher() {
    let dispatcher = DispatcherBuilder::<u8>::new().finish();
    assert_eq!(dispatcher.dispatch("GET", "/"), Err(Status::NotFound));
    assert_eq!(dispatcher.dispatch("GET", "/a/b"), Err(Status::NotFound));
}

#[test]
fn single_wildcard_matches_exactly_one_segment() {
    let mut builder = DispatcherBuilder::new();
    builder.register_handler("GET", "/a/*/b", "handler").unwrap();
    let dispatcher = builder.finish();
    assert_eq!(dispatcher.dispatch("GET", "/a/x/b"), Ok(&"handler"));
    assert!(dispatcher.dispatch("GET", "/a/b").is_err());
    assert_eq!(dispatcher.dispatch("GET", "/a/b"), Err(Status::MethodNotAllowed));
    assert_eq!(dispatcher.dispatch("GET", "/a/x/y/b"), Err(Status::NotFound));
}

#[test]
fn rest_wildcard_takes_all_remaining_segments() {
    let mut builder = DispatcherBuilder::new();
    builder.register_handler("GET", "/r/**", 7).unwrap();
    let dispatcher = builder.finish();
    assert_eq!(dispatcher.dispatch("GET", "/r/1/2/3"), Ok(&7));
    assert_eq!(dispatcher.dispatch("GET", "/r/1"), Ok(&7));
    assert_eq!(dispatcher.dispatch("GET", "/r/"), Ok(&7));
    assert_eq!(dispatcher.dispatch("GET", "/r"), Err(Status::MethodNotAllowed));
    assert_eq!(dispatcher.dispatch("POST", "/r/1/2/3"), Err(Status::MethodNotAllowed));
}

#[test]
fn second_handler_for_the_same_method_and_path_is_refused() {
    let mut builder = DispatcherBuilder::new();
    builder.register_handler("GET", "/hello", 1).unwrap();
    let e = builder.register_handler("GET", "/hello", 2).unwrap_err();
    assert_eq!(e.kind(), ErrorKind::InvalidInput);
    // another method at the same path is fine
    builder.register_handler("PUT", "/hello", 3).unwrap();
    let dispatcher = builder.finish();
    assert_eq!(dispatcher.dispatch("GET", "/hello"), Ok(&1));
    assert_eq!(dispatcher.dispatch("PUT", "/hello"), Ok(&3));
}

#[test]
fn wildcard_beside_literal_is_refused() {
    let mut builder = DispatcherBuilder::new();
    builder.register_handler("GET", "/a/b", 1).unwrap();
    assert_eq!(builder.register_handler("GET", "/a/*", 2).unwrap_err().kind(), ErrorKind::InvalidInput);
    assert_eq!(builder.register_handler("GET", "/a/**", 3).unwrap_err().kind(), ErrorKind::InvalidInput);
    builder.register_handler("GET", "/w/*", 4).unwrap();
    assert_eq!(builder.register_handler("GET", "/w/x", 5).unwrap_err().kind(), ErrorKind::InvalidInput);
    assert_eq!(builder.register_handler("GET", "/w/**", 6).unwrap_err().kind(), ErrorKind::InvalidInput);
    builder.register_handler("GET", "/r/**", 7).unwrap();
    assert_eq!(builder.register_handler("GET", "/r/x", 8).unwrap_err().kind(), ErrorKind::InvalidInput);
    assert_eq!(builder.register_handler("GET", "/r/*", 9).unwrap_err().kind(), ErrorKind::InvalidInput);
    // the same wildcard again is no conflict, with another method or below it
    builder.register_handler("PUT", "/w/*", 10).unwrap();
    builder.register_handler("GET", "/w/*/z", 11).unwrap();
    builder.register_handler("PUT", "/r/**", 12).unwrap();
    let dispatcher = builder.finish();
    assert_eq!(dispatcher.dispatch("GET", "/a/b"), Ok(&1));
    assert_eq!(dispatcher.dispatch("GET", "/w/q"), Ok(&4));
    assert_eq!(dispatcher.dispatch("PUT", "/w/q"), Ok(&10));
    assert_eq!(dispatcher.dispatch("GET", "/w/q/z"), Ok(&11));
    assert_eq!(dispatcher.dispatch("PUT", "/r/q/z"), Ok(&12));
}

#[test]
fn refused_registration_leaves_the_dispatcher_as_it_was() {
    let mut builder = DispatcherBuilder::new();
    builder.register_handler("GET", "/a/b", 1).unwrap();
    assert!(builder.register_handler("GET", "/a/*/c/d", 2).is_err());
    assert!(builder.register_handler("GET", "/x/**/y", 3).is_err());
    assert!(builder.register_handler("GET", "no-slash", 4).is_err());
    assert!(builder.register_handler("GET", "", 5).is_err());
    let dispatcher = builder.finish();
    assert_eq!(dispatcher.dispatch("GET", "/a/b"), Ok(&1));
    assert_eq!(dispatcher.dispatch("GET", "/a/q/c/d"), Err(Status::NotFound));
    assert_eq!(dispatcher.dispatch("GET", "/x"), Err(Status::NotFound));
    assert_eq!(dispatcher.dispatch("GET", "/x/1/y"), Err(Status::NotFound));
}

#[test]
fn path_parse_reads_the_segments() {
    let path = Path::parse("/foo/*/bar/**").unwrap();
    assert_eq!(path.0.len(), 4);
    assert!(matches!(&path.0[0], Segment::Val(v) if v == b"foo"));
    assert!(matches!(&path.0[1], Segment::Any));
    assert!(matches!(&path.0[2], Segment::Val(v) if v == b"bar"));
    assert!(matches!(&path.0[3], Segment::AllTheRest));

    let root = Path::parse("/").unwrap();
    assert_eq!(root.0.len(), 1);
    assert!(matches!(&root.0[0], Segment::Val(v) if v.is_empty()));

    let trailing = Path::parse("/foo/").unwrap();
    assert_eq!(trailing.0.len(), 2);
    assert!(matches!(&trailing.0[1], Segment::Val(v) if v.is_empty()));

    let stars = Path::parse("/***/*x").unwrap();
    assert!(matches!(&stars.0[0], Segment::Val(v) if v == b"***"));
    assert!(matches!(&stars.0[1], Segment::Val(v) if v == b"*x"));
}

#[test]
fn path_parse_refuses_what_is_no_pattern() {
    assert_eq!(Path::parse("").unwrap_err().kind(), ErrorKind::InvalidInput);
    assert_eq!(Path::parse("foo").unwrap_err().kind(), ErrorKind::InvalidInput);
    assert_eq!(Path::parse("foo/bar").unwrap_err().kind(), ErrorKind::InvalidInput);
    assert_eq!(Path::parse("/**/foo").unwrap_err().kind(), ErrorKind::InvalidInput);
    assert_eq!(Path::parse("/foo/**/").unwrap_err().kind(), ErrorKind::InvalidInput);
    assert_eq!(Path::parse("/**/**").unwrap_err().kind(), ErrorKind::InvalidInput);
    assert!(Path::parse("/**").is_ok());
    assert!(Path::parse("/*/*").is_ok());
}

#[test]
fn trie_register_checks_a_path_that_was_not_parsed() {
    let mut trie = Trie::new();
    let bad = Path(vec![Segment::AllTheRest, Segment::Val(b"x".to_vec())]);
    assert!(!bad.rest_is_last());
    assert_eq!(trie.register("GET", &bad, 1).unwrap_err().kind(), ErrorKind::InvalidInput);
    let good = Path(vec![Segment::Val(b"x".to_vec()), Segment::AllTheRest]);
    assert!(good.rest_is_last());
    trie.register("GET", &good, 2).unwrap();
    assert_eq!(trie.dispatch("GET", "/x/y"), Ok(&2));
    assert_eq!(trie.dispatch("GET", "/**"), Err(Status::NotFound));
}

#[test]
fn path_segments_are_bytes() {
    let mut builder = DispatcherBuilder::new();
    builder.register_handler("GET", "/caf\u{e9}/*", 1).unwrap();
    let dispatcher = builder.finish();
    assert_eq!(dispatcher.dispatch("GET", "/caf\u{e9}/x"), Ok(&1));
    assert_eq!(dispatcher.dispatch("GET", "/cafe/x"), Err(Status::NotFound));
}
