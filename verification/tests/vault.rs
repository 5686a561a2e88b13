use cortex_core::vault::{EnvMap, Vault, VaultError, VaultFile, NONCE_LEN, SALT_LEN};

#[test]
fn test_vault_encrypt_decrypt() -> Result<(), VaultError> {
    let password = "test-master-password";
    let mut data = EnvMap::new();
    data.insert("API_KEY", "sk-12345");
    data.insert("DB_URL", "postgres://localhost");

    // Save
    let saved = Vault::save_vault(password, &data)?;

    // Load
    let loaded = Vault::load_vault(password, &saved)?;
    assert_eq!(loaded.get("API_KEY").unwrap(), "sk-12345");
    assert_eq!(loaded.get("DB_URL").unwrap(), "postgres://localhost");
    Ok(())
}

#[test]
fn test_vault_wrong_password() -> Result<(), VaultError> {
    let password = "correct-password";
    let mut data = EnvMap::new();
    data.insert("SECRET", "hidden");
    let saved = Vault::save_vault(password, &data)?;

    // Try wrong password
    let result = Vault::load_vault("wrong-password", &saved);
    assert!(result.is_err());
    Ok(())
}

#[test]
fn vault_file_is_hex_of_salt_and_nonce() {
    let data = EnvMap::new();
    let saved = Vault::save_vault("pw", &data).unwrap();
    assert_eq!(saved.salt.len(), 2 * SALT_LEN);
    assert_eq!(saved.nonce.len(), 2 * NONCE_LEN);
    assert!(saved.salt.chars().all(|c| c.is_ascii_hexdigit() && !c.is_ascii_uppercase()));
    assert!(Vault::nonce_fits(&saved));
}

#[test]
fn vault_seal_is_deterministic_for_fixed_salt_and_nonce() {
    let mut data = EnvMap::new();
    data.insert("K", "V");
    let salt = [7u8; 16];
    let nonce = [1u8; 12];
    let a = Vault::seal("pw", &data, &salt, &nonce).unwrap();
    let b = Vault::seal("pw", &data, &salt, &nonce).unwrap();
    assert_eq!(a.cipher_text, b.cipher_text);
    assert_eq!(a.salt, "07".repeat(16));
    assert_eq!(a.nonce, "01".repeat(12));
    // the cipher text is not the plain payload handed back
    assert_ne!(a.cipher_text, "");
    let opened = Vault::load_vault("pw", &a).unwrap();
    assert_eq!(opened.get("K").unwrap(), "V");
}

#[test]
fn vault_init_refuses_an_existing_vault() {
    assert_eq!(Vault::init("pw", true).unwrap_err(), VaultError::AlreadyExists);
    let fresh = Vault::init("pw", false).unwrap();
    let opened = Vault::load_vault("pw", &fresh).unwrap();
    assert_eq!(opened.to_entries().len(), 0);
}

#[test]
fn vault_set_adds_and_overwrites() {
    let first = Vault::set("pw", None, "A", "1").unwrap();
    let second = Vault::set("pw", Some(&first), "B", "2").unwrap();
    let third = Vault::set("pw", Some(&second), "A", "3").unwrap();
    let opened = Vault::load_vault("pw", &third).unwrap();
    assert_eq!(opened.get("A").unwrap(), "3");
    assert_eq!(opened.get("B").unwrap(), "2");
    assert_eq!(opened.to_entries().len(), 2);
}

#[test]
fn vault_set_with_wrong_password_is_refused() {
    let first = Vault::set("pw", None, "A", "1").unwrap();
    assert_eq!(Vault::set("other", Some(&first), "B", "2").unwrap_err(), VaultError::DecryptionFailed);
    // the vault in place still opens with its own password to its own entries
    let opened = Vault::load_vault("pw", &first).unwrap();
    assert_eq!(opened.get("A").unwrap(), "1");
    assert!(opened.get("B").is_none());
}

#[test]
fn vault_load_rejects_bad_hex() {
    let file = VaultFile {
        salt: "zz".to_string(),
        nonce: "00".repeat(12),
        cipher_text: "00".to_string(),
    };
    assert_eq!(Vault::load_vault("pw", &file).unwrap_err(), VaultError::BadEncoding);
}

#[test]
fn vault_load_rejects_tampered_cipher_text() {
    let mut data = EnvMap::new();
    data.insert("K", "V");
    let mut saved = Vault::save_vault("pw", &data).unwrap();
    let first = if saved.cipher_text.starts_with('0') { "1" } else { "0" };
    saved.cipher_text.replace_range(0..1, first);
    assert_eq!(Vault::load_vault("pw", &saved).unwrap_err(), VaultError::DecryptionFailed);
}

#[test]
fn vault_path_is_env_vault() {
    assert_eq!(Vault::get_vault_path(), ".env.vault");
}

#[test]
fn env_map_insert_overwrites() {
    let mut m = EnvMap::new();
    m.insert("X", "1");
    m.insert("X", "2");
    assert_eq!(m.get("X").unwrap(), "2");
    assert_eq!(m.to_entries().len(), 1);
    assert!(m.get("Y").is_none());
}
