use rode::password::{
    bcrypt_hash, bcrypt_hash_with_salt, bcrypt_verify, calculate_password_strength,
    constant_time_eq, generate_password, generate_salt, password_from_seed, salt_from_seed,
    simple_bcrypt, simple_hash, PasswordGenOptions,
};

fn strength(p: &str) -> (u8, String, Vec<String>) {
    let s = calculate_password_strength(p);
    (s.score, s.level, s.feedback)
}

fn strings(v: &[&str]) -> Vec<String> {
    v.iter().map(|s| s.to_string()).collect()
}

#[test]
fn strength_scores_and_advice() {
    assert_eq!(
        strength("abc"),
        (
            0,
            "weak".to_string(),
            strings(&[
                "Use at least 8 characters",
                "Add uppercase letters",
                "Add numbers",
                "Add symbols (!@#$%^&*)",
                "Avoid sequential characters"
            ])
        )
    );
    assert_eq!(
        strength("Tr0ub4dor&3xyzQ!"),
        (90, "strong".to_string(), strings(&["Avoid sequential characters"]))
    );
    assert_eq!(
        strength("MyPassword1!"),
        (70, "good".to_string(), strings(&["Avoid using 'password'"]))
    );
    assert_eq!(strength("Zebra!9qLm"), (80, "good".to_string(), strings(&["Password looks good!"])));
    assert_eq!(
        strength(""),
        (
            0,
            "weak".to_string(),
            strings(&[
                "Use at least 8 characters",
                "Add lowercase letters",
                "Add uppercase letters",
                "Add numbers",
                "Add symbols (!@#$%^&*)"
            ])
        )
    );
}

#[test]
fn simple_hash_is_djb2_in_hex() {
    assert_eq!(simple_hash(""), "0000000000001505");
    assert_eq!(simple_hash("abc"), "000000000b885c8b");
}

#[test]
fn constant_time_comparison() {
    assert!(constant_time_eq("same", "same"));
    assert!(!constant_time_eq("same", "sane"));
    assert!(!constant_time_eq("short", "longer"));
    assert!(constant_time_eq("", ""));
}

#[test]
fn salted_hash_and_record() {
    let salt = salt_from_seed(1);
    assert_eq!(salt, "mnU9yDA5.fs1K7YxWXEtiz");
    assert_eq!(simple_bcrypt("hunter2", &salt), Ok("m0zx0ykjx2wm4m3ym0zx0ykjx2wm4m3".to_string()));
    let record = bcrypt_hash_with_salt("hunter2", 4, &salt);
    assert_eq!(record, "$2b$04$mnU9yDA5.fs1K7YxWXEtiz$m0zx0ykjx2wm4m3ym0zx0ykjx2wm4m3");
    assert_eq!(bcrypt_verify("hunter2", &record), Ok(true));
    assert_eq!(bcrypt_verify("hunter3", &record), Ok(false));
    assert_eq!(
        bcrypt_hash_with_salt("x", 12, "s"),
        format!("$2b$12$s${}", simple_bcrypt("x", "s").unwrap())
    );
}

#[test]
fn malformed_records_are_errors() {
    assert_eq!(bcrypt_verify("p", "plain"), Err("Invalid hash format".to_string()));
    assert_eq!(bcrypt_verify("p", "$2a$04$s$h"), Err("Invalid hash format".to_string()));
    assert_eq!(bcrypt_verify("p", "$2b$04$s$h$extra"), Err("Invalid hash format".to_string()));
    assert_eq!(bcrypt_verify("p", "$2b$x4$s$h"), Err("Invalid rounds".to_string()));
    assert_eq!(bcrypt_verify("p", "$2b$4294967296$s$h"), Err("Invalid rounds".to_string()));
    assert_eq!(bcrypt_verify("p", "$2b$+4$s$h"), Ok(false));
}

#[test]
fn clock_seeded_hash_verifies() {
    let record = bcrypt_hash("secret", 10).unwrap();
    assert!(record.starts_with("$2b$10$"));
    assert_eq!(bcrypt_verify("secret", &record), Ok(true));
    assert_eq!(generate_salt(12).unwrap().len(), 22);
}

#[test]
fn seeded_passwords_are_exact() {
    let all = PasswordGenOptions {
        include_lowercase: true,
        include_uppercase: true,
        include_numbers: true,
        include_symbols: false,
        exclude_similar: false,
    };
    assert_eq!(password_from_seed(12, &all, 42), "BkBCJsd8HEPY");
    let none = PasswordGenOptions {
        include_lowercase: false,
        include_uppercase: false,
        include_numbers: false,
        include_symbols: false,
        exclude_similar: true,
    };
    assert_eq!(password_from_seed(6, &none, 7), "cxmjqr");
    let plain = PasswordGenOptions {
        include_lowercase: true,
        include_uppercase: false,
        include_numbers: true,
        include_symbols: false,
        exclude_similar: true,
    };
    assert_eq!(password_from_seed(10, &plain, 99), "bdxxhy8hdq");
    assert_eq!(generate_password(16, &all).chars().count(), 16);
}
