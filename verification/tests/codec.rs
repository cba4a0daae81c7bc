use minote::codec::{extract_value, merge_cookies, tidy_key_values};

#[test]
fn merge_sorts_keys_and_new_value_wins() {
    assert_eq!(merge_cookies("a=1; b=2", "b=3; c=4"), "a=1; b=3; c=4");
}

#[test]
fn tidy_keeps_only_identity_pairs() {
    assert_eq!(
        tidy_key_values("sid=abc; Path=/; Domain=i.mi.com; Secure; HttpOnly"),
        "sid=abc"
    );
}

#[test]
fn tidy_drops_empty_and_quoted_empty_values() {
    assert_eq!(tidy_key_values("x=; y=\"\""), "");
}

#[test]
fn extract_finds_value_by_exact_key() {
    assert_eq!(
        extract_value("a=1; i.mi.com_ph=TOKEN123", "i.mi.com_ph"),
        Some("TOKEN123".to_string())
    );
    assert_eq!(extract_value("a=1; i.mi.com_ph=TOKEN123", "missing"), None);
}

fn names(cookie: &str) -> Vec<String> {
    cookie
        .split("; ")
        .filter(|pair| !pair.is_empty())
        .map(|pair| pair.split('=').next().unwrap().to_string())
        .collect()
}

#[test]
fn merge_is_idempotent_and_commutes_on_names() {
    let cases = [
        ("a=1; b=2", "b=3; c=4"),
        ("", "x=1"),
        ("x=1", ""),
        ("", ""),
        (" k = v ;; =e; novalue; k2=a=b ", "k=w; z = ; =f"),
        ("serviceToken=old; userId=1; passToken=p", "userId=2; serviceToken=new"),
        ("b=1;a=2;B=3;ä=4;Z=5", "a=9"),
    ];
    for (a, b) in cases {
        let merged = merge_cookies(a, b);
        assert_eq!(merge_cookies(&merged, b), merged);
        assert_eq!(merge_cookies(&merged, &merged), merged);
        assert_eq!(merge_cookies(&merged, ""), merged);
        assert_eq!(names(&merged), names(&merge_cookies(b, a)));
    }
}

#[test]
fn merge_reads_pairs_as_trimmed_key_and_value() {
    assert_eq!(merge_cookies("  a  =  1  ;b=2;;  ; c", ""), "a=1; b=2");
    assert_eq!(merge_cookies("k=a=b=c", ""), "k=a=b=c");
    assert_eq!(merge_cookies("=v; e=", ""), "=v");
    assert_eq!(merge_cookies("a=1; a=2; a=3", ""), "a=3");
    assert_eq!(merge_cookies("a=1", "a=\t2\n"), "a=2");
    assert_eq!(merge_cookies("a=1,b=2", ""), "a=1,b=2");
    assert_eq!(merge_cookies("path=/; Secure=1; x=\"\"", ""), "");
}

#[test]
fn merge_orders_names_by_code_point() {
    assert_eq!(merge_cookies("b=1; a=2; B=3; ab=4; a0=5; Z=6", ""), "B=3; Z=6; a=2; a0=5; ab=4; b=1");
    assert_eq!(merge_cookies("é=1; z=2; 日=3; e=4; \u{10000}=5", ""), "e=4; z=2; é=1; 日=3; \u{10000}=5");
    let mut expected = vec!["b", "a", "B", "é", "日", "\u{10000}", "a0", ""];
    expected.sort();
    let input: Vec<String> = expected.iter().rev().map(|k| format!("{k}=v")).collect();
    let output: Vec<String> = expected.iter().map(|k| format!("{k}=v")).collect();
    assert_eq!(merge_cookies(&input.join(";"), ""), output.join("; "));
}

#[test]
fn tidy_cuts_at_commas_and_semicolons() {
    assert_eq!(tidy_key_values("a=1, b=2; c=3"), "a=1; b=2; c=3");
    assert_eq!(
        tidy_key_values("t=1; Expires=Wed, 21 Oct 2026 07:28:00 GMT; Path=/, u=2"),
        "t=1; u=2"
    );
    assert_eq!(tidy_key_values(""), "");
    assert_eq!(tidy_key_values(",;,"), "");
}

#[test]
fn tidy_matches_attributes_in_any_case() {
    for attribute in ["path", "Domain", "EXPIRES", "sEcUrE", "HttpOnly", "SameSite", "MAX-AGE", "max-age"] {
        assert_eq!(tidy_key_values(&format!("a=1; {attribute}=x")), "a=1");
    }
    assert_eq!(tidy_key_values("paths=1; max_age=2; domain2=3"), "domain2=3; max_age=2; paths=1");
    assert_eq!(tidy_key_values("\u{212a}=1"), "\u{212a}=1");
}

#[test]
fn tidy_keeps_the_last_value_of_a_name() {
    assert_eq!(tidy_key_values("a=1; a=2, a=3"), "a=3");
    assert_eq!(tidy_key_values("a=1; a=; a=\"\""), "a=1");
    assert_eq!(tidy_key_values("b=2; a=1"), "a=1; b=2");
    assert_eq!(tidy_key_values("k=\"q\"; e=\" \"; =v"), "=v; e=\" \"; k=\"q\"");
}

#[test]
fn tidy_output_is_stable_under_tidy_and_merge() {
    let raw = "serviceToken=T1; Path=/; Secure, userId=U1; HttpOnly, i.mi.com_ph=P; Max-Age=1, i.mi.com_slh=S";
    let tidied = tidy_key_values(raw);
    assert_eq!(tidied, "i.mi.com_ph=P; i.mi.com_slh=S; serviceToken=T1; userId=U1");
    assert_eq!(tidy_key_values(&tidied), tidied);
    assert_eq!(merge_cookies("", &tidied), tidied);
    assert_eq!(
        merge_cookies("userId=U0; passToken=X", &tidied),
        "i.mi.com_ph=P; i.mi.com_slh=S; passToken=X; serviceToken=T1; userId=U1"
    );
}

#[test]
fn extract_returns_the_first_pair_of_the_name() {
    assert_eq!(extract_value("a=1; a=2", "a"), Some("1".to_string()));
    assert_eq!(extract_value(" a = x y ;b=2", "a"), Some("x y".to_string()));
    assert_eq!(extract_value("a=1", "A"), None);
    assert_eq!(extract_value("ab=1", "a"), None);
    assert_eq!(extract_value("a", "a"), None);
    assert_eq!(extract_value("a=", "a"), Some(String::new()));
    assert_eq!(extract_value("=v", ""), Some("v".to_string()));
    assert_eq!(extract_value("", ""), None);
    assert_eq!(extract_value("a=1,b=2", "a"), Some("1,b=2".to_string()));
    assert_eq!(extract_value("k=a=b", "k"), Some("a=b".to_string()));
    assert_eq!(extract_value("k=v", " k"), None);
}

#[test]
fn merge_keeps_identity_pairs_only() {
    assert_eq!(merge_cookies("Path=/", ""), "");
    assert_eq!(merge_cookies("", "DOMAIN=i.mi.com; Max-Age=3; sid=1"), "sid=1");
    assert_eq!(merge_cookies("a=1; expires=x", "samesite=Lax; b=2; HttpOnly=1"), "a=1; b=2");
    assert_eq!(merge_cookies("a=1; b=2", "a=; b=\"\""), "a=1; b=2");
    assert_eq!(merge_cookies("a=; a=1; a=\"\"", ""), "a=1");
    assert_eq!(merge_cookies("k=\" \"; paths=1", ""), "k=\" \"; paths=1");
    for (a, b) in [("Path=/; a=1", "secure=; b=2"), ("x=", "y=\"\""), ("e=; =v", "Domain=d")] {
        let merged = merge_cookies(a, b);
        assert_eq!(tidy_key_values(&merged), merged);
        for pair in merged.split("; ").filter(|p| !p.is_empty()) {
            let (name, value) = pair.split_once('=').unwrap();
            let lower = name.to_lowercase();
            assert!(!["path", "domain", "expires", "secure", "httponly", "samesite", "max-age"]
                .contains(&lower.as_str()));
            assert!(!value.is_empty() && value != "\"\"");
        }
    }
}
