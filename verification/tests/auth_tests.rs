use eventos::auth::verify_credential;
use eventos::error::AppError;

const SECRET: &str = "SECRET-REDACTED";

fn mint(claims_json: &str, secret: &str) -> String {
    let value: serde_json::Value = serde_json::from_str(claims_json).unwrap();
    let key = jsonwebtoken::EncodingKey::from_secret(secret.as_bytes());
    jsonwebtoken::encode(&jsonwebtoken::Header::default(), &value, &key).unwrap()
}

fn future_exp() -> i64 {
    chrono::Utc::now().timestamp() + 3600
}

fn claims_json(exp: i64) -> String {
    format!(
        "{{\"sub\":\"U1\",\"name\":\"Juan\",\"email\":\"juan@example.com\",\
         \"rol\":\"cliente\",\"iat\":1700000000,\"exp\":{}}}",
        exp
    )
}

#[test]
fn valid_token_yields_claims() {
    let exp = future_exp();
    let token = mint(&claims_json(exp), SECRET);
    let claims = verify_credential(&token, SECRET).unwrap();
    assert_eq!(claims.sub, "U1");
    assert_eq!(claims.name, "Juan");
    assert_eq!(claims.email, "juan@example.com");
    assert_eq!(claims.rol, "cliente");
    assert_eq!(claims.iat, 1_700_000_000);
    assert_eq!(claims.exp, exp as u64);
}

#[test]
fn wrong_secret_is_unauthorized() {
    let token = mint(&claims_json(future_exp()), SECRET);
    let r = verify_credential(&token, "otra-clave");
    assert!(matches!(r, Err(AppError::Unauthorized(_))));
}

#[test]
fn expired_token_is_unauthorized() {
    let past = chrono::Utc::now().timestamp() - 86_400;
    let token = mint(&claims_json(past), SECRET);
    let r = verify_credential(&token, SECRET);
    assert!(matches!(r, Err(AppError::Unauthorized(_))));
}

#[test]
fn malformed_token_is_unauthorized() {
    assert!(matches!(verify_credential("no-un-jwt", SECRET), Err(AppError::Unauthorized(_))));
    assert!(matches!(verify_credential("", SECRET), Err(AppError::Unauthorized(_))));
}

#[test]
fn tampered_token_is_unauthorized() {
    let token = mint(&claims_json(future_exp()), SECRET);
    // Flip one character in the middle of the signature, making sure it
    // really changes.
    let dot = token.rfind('.').unwrap();
    let pos = dot + 5;
    let original = token.as_bytes()[pos];
    let replacement = if original == b'x' { b'y' } else { b'x' };
    let mut bytes = token.into_bytes();
    bytes[pos] = replacement;
    let tampered = String::from_utf8(bytes).unwrap();
    let r = verify_credential(&tampered, SECRET);
    assert!(matches!(r, Err(AppError::Unauthorized(_))));
}

#[test]
fn missing_claim_field_is_unauthorized() {
    let exp = future_exp();
    let json = format!(
        "{{\"sub\":\"U1\",\"name\":\"Juan\",\"email\":\"juan@example.com\",\"exp\":{}}}",
        exp
    );
    let token = mint(&json, SECRET);
    let r = verify_credential(&token, SECRET);
    assert!(matches!(r, Err(AppError::Unauthorized(_))));
}

#[test]
fn wrongly_typed_claim_field_is_unauthorized() {
    let exp = future_exp();
    let json = format!(
        "{{\"sub\":7,\"name\":\"Juan\",\"email\":\"juan@example.com\",\
         \"rol\":\"cliente\",\"iat\":1700000000,\"exp\":{}}}",
        exp
    );
    let token = mint(&json, SECRET);
    let r = verify_credential(&token, SECRET);
    assert!(matches!(r, Err(AppError::Unauthorized(_))));
}

#[test]
fn token_without_exp_is_unauthorized() {
    let json = "{\"sub\":\"U1\",\"name\":\"Juan\",\"email\":\"juan@example.com\",\
                \"rol\":\"cliente\",\"iat\":1700000000}";
    let token = mint(json, SECRET);
    let r = verify_credential(&token, SECRET);
    assert!(matches!(r, Err(AppError::Unauthorized(_))));
}
