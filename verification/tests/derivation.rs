use aegixpass::{
    aegixpass_generator, AegixPassError, HashAlgorithm, Preset, RngAlgorithm, ShuffleAlgorithm,
};

fn four_groups() -> Vec<String> {
    vec![
        "0123456789".to_string(),
        "abcdefghijklmnopqrstuvwxyz".to_string(),
        "ABCDEFGHIJKLMNOPQRSTUVWXYZ".to_string(),
        "!@#$%^&*()_+-=".to_string(),
    ]
}

fn preset_with(
    name: &str,
    hash_algorithm: HashAlgorithm,
    rng_algorithm: RngAlgorithm,
    length: usize,
    platform_id: &str,
) -> Preset {
    Preset {
        name: name.to_string(),
        version: 1,
        hash_algorithm,
        rng_algorithm,
        shuffle_algorithm: ShuffleAlgorithm::FisherYates,
        length,
        platform_id: platform_id.to_string(),
        charsets: four_groups(),
    }
}

fn load_default_preset() -> Preset {
    preset_with(
        "AegixPass - Sha256",
        HashAlgorithm::Sha256,
        RngAlgorithm::ChaCha20,
        16,
        "aegixpass.takuron.com",
    )
}

fn load_sha3_preset() -> Preset {
    preset_with(
        "AegixPass - Sha3",
        HashAlgorithm::Sha3_256,
        RngAlgorithm::Hc128,
        16,
        "aegixpass.takuron.com",
    )
}

fn load_argon2id_preset() -> Preset {
    preset_with(
        "AegixPass - Default",
        HashAlgorithm::Argon2id,
        RngAlgorithm::ChaCha20,
        16,
        "aegixpass.takuron.com",
    )
}

fn load_scrypt_preset() -> Preset {
    preset_with(
        "AegixPass - Scrypt",
        HashAlgorithm::Scrypt,
        RngAlgorithm::ChaCha20,
        20,
        "aegixpass.takuron.com",
    )
}

fn scenario_preset(hash_algorithm: HashAlgorithm) -> Preset {
    preset_with("scenario", hash_algorithm, RngAlgorithm::ChaCha20, 16, "aegispass.example")
}

fn holds_one_of(password: &str, group: &str) -> bool {
    group.chars().any(|c| password.contains(c))
}

#[test]
fn test_determinism() {
    let preset = load_default_preset();
    let pass1 = aegixpass_generator("MySecretPassword123!", "example.com", &preset).unwrap();
    let pass2 = aegixpass_generator("MySecretPassword123!", "example.com", &preset).unwrap();
    assert_eq!(pass1, pass2, "The same input should produce the same password");
}

#[test]
fn test_uniqueness() {
    let preset = load_default_preset();
    let pass1 = aegixpass_generator("MySecretPassword123!", "example.com", &preset).unwrap();
    let pass2 = aegixpass_generator("MySecretPassword123!", "anothersite.org", &preset).unwrap();
    assert_ne!(pass1, pass2, "Different keys should produce different passwords");
}

#[test]
fn test_all_charsets_are_used() {
    let preset = load_default_preset();
    let password =
        aegixpass_generator("a-very-long-and-random-password", "a-very-long-key", &preset).unwrap();
    for charset in &preset.charsets {
        assert!(
            charset.chars().any(|c| password.contains(c)),
            "Password '{}' must contain characters from charset '{}'",
            password,
            charset
        );
    }
}

#[test]
fn test_error_on_length_too_short() {
    let mut preset = load_default_preset();
    preset.length = 3;
    let result = aegixpass_generator("password", "example.com", &preset);
    assert_eq!(result, Err(AegixPassError::LengthTooShort(3, 4)));
}

#[test]
fn test_error_on_too_many_groups() {
    let mut preset = load_default_preset();
    preset.charsets = vec![
        "1".to_string(),
        "2".to_string(),
        "3".to_string(),
        "4".to_string(),
        "5".to_string(),
        "6".to_string(),
        "7".to_string(),
        "8".to_string(),
        "9".to_string(),
    ];
    preset.length = 10;
    let result = aegixpass_generator("password", "example.com", &preset);
    assert_eq!(result, Err(AegixPassError::TooManyCharsetGroups(9, 8)));
}

#[test]
fn test_determinism_sha3() {
    let preset = load_sha3_preset();
    let pass1 = aegixpass_generator("MySecretPassword123!", "example.com", &preset).unwrap();
    let pass2 = aegixpass_generator("MySecretPassword123!", "example.com", &preset).unwrap();
    assert_eq!(pass1, pass2, "The same input should produce the same password");
}

#[test]
fn test_determinism_argon2id() {
    let preset = load_argon2id_preset();
    let pass1 = aegixpass_generator("MySecretPassword123!", "example.com", &preset).unwrap();
    let pass2 = aegixpass_generator("MySecretPassword123!", "example.com", &preset).unwrap();
    assert_eq!(pass1, pass2, "The same input should produce the same password with Argon2id");

    let pass3 = aegixpass_generator("AnotherPassword!", "example.com", &preset).unwrap();
    assert_ne!(pass1, pass3, "Different passwords should produce different results with Argon2id");
}

#[test]
fn test_determinism_scrypt() {
    let preset = load_scrypt_preset();
    let pass1 = aegixpass_generator("MySecretPassword123!", "example.com", &preset).unwrap();
    let pass2 = aegixpass_generator("MySecretPassword123!", "example.com", &preset).unwrap();
    assert_eq!(pass1, pass2, "The same input should produce the same password with Scrypt");

    let pass3 = aegixpass_generator("AnotherPassword!", "example.com", &preset).unwrap();
    assert_ne!(pass1, pass3, "Different passwords should produce different results with Scrypt");
}

#[test]
fn end_to_end_scenario_reproduces_pinned_password() {
    let preset = scenario_preset(HashAlgorithm::Sha256);
    let password = aegixpass_generator("MySecretPassword123!", "example.com", &preset).unwrap();
    assert_eq!(password, "bA38e=f$w3VW!$Oe");
    assert_eq!(password.chars().count(), 16);
    assert!(password.chars().any(|c| c.is_ascii_digit()));
    assert!(password.chars().any(|c| c.is_ascii_lowercase()));
    assert!(password.chars().any(|c| c.is_ascii_uppercase()));
    assert!(password.chars().any(|c| "!@#$%^&*()_+-=".contains(c)));
}

#[test]
fn default_preset_passwords_are_pinned() {
    let preset = load_default_preset();
    assert_eq!(
        aegixpass_generator("MySecretPassword123!", "example.com", &preset).unwrap(),
        "$*Ch2ig&2LfK*(-b"
    );
    assert_eq!(
        aegixpass_generator("MySecretPassword123!", "anothersite.org", &preset).unwrap(),
        "8LdQZ2nz8Ho8_Ngd"
    );
    assert_eq!(
        aegixpass_generator("a-very-long-and-random-password", "a-very-long-key", &preset).unwrap(),
        "6ghWy)Rxeo6DpWDP"
    );
}

#[test]
fn sha3_with_chacha20_password_is_pinned() {
    let preset = preset_with(
        "sha3",
        HashAlgorithm::Sha3_256,
        RngAlgorithm::ChaCha20,
        16,
        "aegixpass.takuron.com",
    );
    assert_eq!(
        aegixpass_generator("MySecretPassword123!", "example.com", &preset).unwrap(),
        "i(X(AIlBzg6#3^(K"
    );
}

#[test]
fn scrypt_password_is_pinned() {
    let preset = load_scrypt_preset();
    assert_eq!(
        aegixpass_generator("MySecretPassword123!", "example.com", &preset).unwrap(),
        "A)wu+OH_dm7sidwoWjPY"
    );
}

#[test]
fn groups_beyond_ascii_are_counted_in_characters() {
    let preset = Preset {
        name: "unicode".to_string(),
        version: 1,
        hash_algorithm: HashAlgorithm::Sha256,
        rng_algorithm: RngAlgorithm::ChaCha20,
        shuffle_algorithm: ShuffleAlgorithm::FisherYates,
        length: 12,
        platform_id: "平台".to_string(),
        charsets: vec!["äöü".to_string(), "αβγδ".to_string(), "0123".to_string()],
    };
    let password = aegixpass_generator("密码", "例子.com", &preset).unwrap();
    assert_eq!(password, "αü1δäβδ3α2öü");
    assert_eq!(password.chars().count(), 12);
}

#[test]
fn argon2id_scenario_is_stable_and_differs_from_sha256() {
    let argon2id = scenario_preset(HashAlgorithm::Argon2id);
    let sha256 = scenario_preset(HashAlgorithm::Sha256);
    let first = aegixpass_generator("MySecretPassword123!", "example.com", &argon2id).unwrap();
    let again = aegixpass_generator("MySecretPassword123!", "example.com", &argon2id).unwrap();
    assert_eq!(first, again);
    assert_ne!(first, aegixpass_generator("MySecretPassword123!", "example.com", &sha256).unwrap());
}

#[test]
fn scrypt_scenario_is_stable_and_differs_from_sha256() {
    let scrypt = scenario_preset(HashAlgorithm::Scrypt);
    let sha256 = scenario_preset(HashAlgorithm::Sha256);
    let first = aegixpass_generator("MySecretPassword123!", "example.com", &scrypt).unwrap();
    let again = aegixpass_generator("MySecretPassword123!", "example.com", &scrypt).unwrap();
    assert_eq!(first, again);
    assert_ne!(first, aegixpass_generator("MySecretPassword123!", "example.com", &sha256).unwrap());
}

#[test]
fn argon2id_and_scrypt_scenarios_differ() {
    let argon2id = scenario_preset(HashAlgorithm::Argon2id);
    let scrypt = scenario_preset(HashAlgorithm::Scrypt);
    assert_ne!(
        aegixpass_generator("MySecretPassword123!", "example.com", &argon2id).unwrap(),
        aegixpass_generator("MySecretPassword123!", "example.com", &scrypt).unwrap()
    );
}

#[test]
fn every_hash_and_generator_choice_yields_its_own_password() {
    let hashes = [HashAlgorithm::Sha256, HashAlgorithm::Blake3, HashAlgorithm::Sha3_256];
    let generators = [RngAlgorithm::ChaCha20, RngAlgorithm::Hc128];
    let mut seen: Vec<String> = Vec::new();
    for hash in hashes {
        for generator in generators {
            let preset = preset_with("mix", hash, generator, 24, "aegixpass.takuron.com");
            let first = aegixpass_generator("secret", "site", &preset).unwrap();
            let again = aegixpass_generator("secret", "site", &preset).unwrap();
            assert_eq!(first, again);
            assert_eq!(first.chars().count(), 24);
            assert!(!seen.contains(&first));
            seen.push(first);
        }
    }
    assert_eq!(seen.len(), 6);
}

#[test]
fn output_length_equals_requested_length() {
    for length in [4usize, 5, 8, 16, 33, 64, 200] {
        let mut preset = load_default_preset();
        preset.length = length;
        let password = aegixpass_generator("secret", "label", &preset).unwrap();
        assert_eq!(password.chars().count(), length);
    }
}

#[test]
fn every_group_is_represented_for_many_labels() {
    let mut preset = load_default_preset();
    preset.length = 4;
    for label in ["a", "b", "c", "example.com", "anothersite.org", "x.y.z", "0", "label-7"] {
        let password = aegixpass_generator("secret", label, &preset).unwrap();
        assert_eq!(password.chars().count(), 4);
        for group in &preset.charsets {
            assert!(holds_one_of(&password, group));
        }
    }
}

#[test]
fn shortest_password_is_pinned() {
    let mut preset = load_default_preset();
    preset.length = 4;
    preset.platform_id = "p".to_string();
    assert_eq!(aegixpass_generator("pw", "k", &preset).unwrap(), "(cU5");
}

#[test]
fn no_groups_and_no_length_give_the_empty_password() {
    let mut preset = load_default_preset();
    preset.charsets = Vec::new();
    preset.length = 0;
    assert_eq!(aegixpass_generator("secret", "label", &preset), Ok(String::new()));
}

#[test]
fn length_one_below_group_count_is_too_short() {
    for groups in 1usize..=8 {
        let mut preset = load_default_preset();
        preset.charsets = (0..groups).map(|_| "ab".to_string()).collect();
        preset.length = groups - 1;
        assert_eq!(
            aegixpass_generator("secret", "label", &preset),
            Err(AegixPassError::LengthTooShort(groups - 1, groups))
        );
        preset.length = groups;
        assert!(aegixpass_generator("secret", "label", &preset).is_ok());
    }
}

#[test]
fn empty_group_is_rejected() {
    let mut preset = load_default_preset();
    preset.charsets[2] = String::new();
    assert_eq!(
        aegixpass_generator("secret", "label", &preset),
        Err(AegixPassError::EmptyCharset)
    );
}

#[test]
fn empty_secret_or_label_is_rejected_first() {
    let mut preset = load_default_preset();
    assert_eq!(aegixpass_generator("", "label", &preset), Err(AegixPassError::InputEmpty));
    assert_eq!(aegixpass_generator("secret", "", &preset), Err(AegixPassError::InputEmpty));
    assert_eq!(aegixpass_generator("", "", &preset), Err(AegixPassError::InputEmpty));
    preset.length = 1;
    preset.charsets[0] = String::new();
    assert_eq!(aegixpass_generator("", "label", &preset), Err(AegixPassError::InputEmpty));
}

#[test]
fn short_length_is_reported_before_an_empty_group() {
    let mut preset = load_default_preset();
    preset.length = 2;
    preset.charsets[1] = String::new();
    assert_eq!(
        aegixpass_generator("secret", "label", &preset),
        Err(AegixPassError::LengthTooShort(2, 4))
    );
}

#[test]
fn nine_groups_exceed_the_seed_budget() {
    let mut preset = load_default_preset();
    preset.charsets = (0..9).map(|i| format!("{}x", i)).collect();
    for length in [9usize, 10, 64] {
        preset.length = length;
        assert_eq!(
            aegixpass_generator("secret", "label", &preset),
            Err(AegixPassError::TooManyCharsetGroups(9, 8))
        );
    }
    preset.length = 8;
    assert_eq!(
        aegixpass_generator("secret", "label", &preset),
        Err(AegixPassError::LengthTooShort(8, 9))
    );
    preset.charsets.pop();
    preset.length = 8;
    assert!(aegixpass_generator("secret", "label", &preset).is_ok());
}

#[test]
fn twelve_groups_report_their_own_count() {
    let mut preset = load_default_preset();
    preset.charsets = (0..12).map(|_| "z".to_string()).collect();
    preset.length = 12;
    assert_eq!(
        aegixpass_generator("secret", "label", &preset),
        Err(AegixPassError::TooManyCharsetGroups(12, 8))
    );
}
