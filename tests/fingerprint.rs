use cmdseq::fingerprint::{hash, join_args, short_fingerprint, state_file_name};

fn strings(v: &[&str]) -> Vec<String> {
    v.iter().map(|s| s.to_string()).collect()
}

#[test]
fn hash_is_sha256_prefix() {
    assert_eq!(hash(""), "e3b0c44298fc1c14");
    assert_eq!(hash("abc"), "ba7816bf8f01cfea");
}

#[test]
fn short_fingerprint_keeps_sixteen_characters() {
    assert_eq!(short_fingerprint("0123456789abcdef0123"), "0123456789abcdef");
}

#[test]
fn join_args_puts_dashes_between() {
    assert_eq!(join_args(&strings(&["-d", "/x", "3", "echo hi"])), "-d-/x-3-echo hi");
    assert_eq!(join_args(&strings(&["one"])), "one");
    assert_eq!(join_args(&vec![]), "");
}

#[test]
fn state_file_name_is_deterministic_and_distinct() {
    let a = strings(&["3", "echo a", "2", "echo b"]);
    let b = strings(&["3", "echo a", "2", "echo c"]);
    let name = state_file_name(&a);
    assert_eq!(name, state_file_name(&a.clone()));
    assert_eq!(name, format!("cmdseq.{}", hash("3-echo a-2-echo b")));
    assert_eq!(name.len(), 23);
    assert_ne!(name, state_file_name(&b));
}
