use digester::algorithms::Algorithm;
use digester::cli::{algo_list, output_line, render_listing, Opts, Outcome};
use digester::error::DigestError;
use digester::post_process::Encoding;
use std::path::PathBuf;

fn opts(algorithm: Option<&str>, input: Option<&str>) -> Opts {
    Opts {
        file: false,
        list: false,
        algorithm: algorithm.map(|a| a.to_string()),
        input: input.map(|i| i.to_string()),
        encoding: Encoding::Hex,
        output: None,
    }
}

fn text_of(outcome: Result<Outcome, DigestError>) -> String {
    match outcome {
        Ok(Outcome::Text(text)) => text,
        Ok(Outcome::AwaitsFile(_)) => panic!("no file was asked for"),
        Err(error) => panic!("{:?}", error),
    }
}

fn error_of(outcome: Result<Outcome, DigestError>) -> DigestError {
    match outcome {
        Ok(_) => panic!("an error was expected"),
        Err(error) => error,
    }
}

#[test]
fn the_listing_of_the_registry() {
    assert_eq!(
        algo_list(),
        "Algorithm count: 6\n· md5\n· sha1\n· sha2 family\n˪→ sha224\n˪→ sha256\n˪→ sha384\n˪→ sha512"
    );
}

#[test]
fn the_first_line_of_the_listing_counts_the_leaves() {
    let listing = algo_list();
    let first = listing.lines().next().unwrap();
    assert_eq!(first, "Algorithm count: 6");
    let members = listing.lines().filter(|line| line.starts_with("˪→ ")).count();
    let families = listing.lines().filter(|line| line.ends_with(" family")).count();
    let entries = listing.lines().filter(|line| line.starts_with("· ")).count();
    assert_eq!(entries - families + members, 6);
    assert!(!listing.ends_with('\n'));
}

#[test]
fn the_listing_of_other_catalogs() {
    let catalog = vec![
        Algorithm::Single("one".to_string()),
        Algorithm::Family {
            name: "pair".to_string(),
            members: vec!["left".to_string(), "right".to_string()],
        },
        Algorithm::Single("two".to_string()),
        Algorithm::Family { name: "none".to_string(), members: Vec::new() },
    ];
    assert_eq!(
        render_listing(&catalog),
        "Algorithm count: 4\n· one\n· pair family\n˪→ left\n˪→ right\n· two\n· none family"
    );
    assert_eq!(render_listing(&Vec::new()), "Algorithm count: 0");
    assert_eq!(output_line(&render_listing(&Vec::new())), "Algorithm count: 0\n");
    assert_eq!(
        render_listing(&vec![Algorithm::Single("only".to_string())]),
        "Algorithm count: 1\n· only"
    );
}

#[test]
fn listing_mode_needs_nothing_else() {
    let mut listing = opts(None, None);
    listing.list = true;
    assert_eq!(text_of(listing.process()), algo_list());
    let mut both = opts(Some("not-a-real-algorithm"), Some("abc"));
    both.list = true;
    both.file = true;
    assert_eq!(text_of(both.process()), algo_list());
}

#[test]
fn sha256_of_abc_in_hex() {
    let text = text_of(opts(Some("sha256"), Some("abc")).process());
    assert_eq!(text, "ba7816bf8f01cfea414140de5dae2223b00361a396177a9cb410ff61f20015ad");
    assert_eq!(text.len(), 64);
}

#[test]
fn sha256_of_abc_in_base64() {
    let mut request = opts(Some("sha256"), Some("abc"));
    request.encoding = Encoding::Base64;
    assert_eq!(text_of(request.process()), "ungWv48Bz+pBQUDeXa4iI7ADYaOWF3qctBD/YfIAFa0=");
}

#[test]
fn the_empty_string_is_an_input() {
    assert_eq!(
        text_of(opts(Some("sha1"), Some("")).process()),
        "da39a3ee5e6b4b0d3255bfef95601890afd80709"
    );
}

#[test]
fn the_output_path_does_not_change_the_text() {
    let mut request = opts(Some("md5"), Some("abc"));
    request.output = Some(PathBuf::from("digest.txt"));
    assert_eq!(text_of(request.process()), "900150983cd24fb0d6963f7d28e17f72");
}

#[test]
fn an_unknown_algorithm_fails_whatever_the_input() {
    let unknown = DigestError::UnknownAlgorithm("not-a-real-algorithm".to_string());
    assert_eq!(error_of(opts(Some("not-a-real-algorithm"), Some("abc")).process()), unknown);
    assert_eq!(error_of(opts(Some("not-a-real-algorithm"), Some("")).process()), unknown);
    let mut on_file = opts(Some("not-a-real-algorithm"), Some("/no/such/file"));
    on_file.file = true;
    assert_eq!(error_of(on_file.process()), unknown);
}

#[test]
fn an_invocation_without_algorithm_or_input_is_invalid() {
    assert_eq!(error_of(opts(None, None).process()), DigestError::InvalidInvocation);
    assert_eq!(error_of(opts(Some("md5"), None).process()), DigestError::InvalidInvocation);
    assert_eq!(error_of(opts(None, Some("abc")).process()), DigestError::InvalidInvocation);
}

#[test]
fn a_file_input_hands_out_a_fresh_hasher() {
    let mut request = opts(Some("sha256"), Some("some/path"));
    request.file = true;
    match request.process() {
        Ok(Outcome::AwaitsFile(mut hasher)) => {
            hasher.update(b"abc");
            assert_eq!(
                request.encoding.encode(hasher.finalize()),
                "ba7816bf8f01cfea414140de5dae2223b00361a396177a9cb410ff61f20015ad"
            );
        }
        _ => panic!("the file's hasher was expected"),
    }
}

#[test]
fn one_newline_ends_the_output() {
    assert_eq!(output_line("00ff"), "00ff\n");
    assert_eq!(output_line(""), "\n");
    assert_eq!(output_line("a\nb"), "a\nb\n");
}

#[test]
fn a_family_adds_its_members_to_the_count_and_one_line_more() {
    let base = || {
        vec![
            Algorithm::Single("one".to_string()),
            Algorithm::Single("two".to_string()),
        ]
    };
    let before = render_listing(&base());
    assert_eq!(before.lines().next(), Some("Algorithm count: 2"));
    for at in 0..=2 {
        for k in 0..4 {
            let mut catalog = base();
            let members: Vec<String> = (0..k).map(|m| format!("m{}", m)).collect();
            catalog.insert(at, Algorithm::Family { name: "fam".to_string(), members });
            let after = render_listing(&catalog);
            assert_eq!(after.lines().next().unwrap(), format!("Algorithm count: {}", 2 + k));
            assert_eq!(after.lines().count(), before.lines().count() + k + 1);
        }
    }
}
