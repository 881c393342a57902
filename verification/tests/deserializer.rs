use kaflow::deserializer::{DecodeCtx, DecodedValue, DeserializeError, Deserializer};
use kaflow::mock::fixture::JsonValue;

struct Plain;

impl Deserializer for Plain {
    fn id(&self) -> &'static str {
        "plain"
    }

    fn decode(&self, bytes: &[u8], _ctx: &DecodeCtx) -> Result<DecodedValue, DeserializeError> {
        match std::str::from_utf8(bytes) {
            Ok(s) => Ok(DecodedValue {
                json: JsonValue::Str(s.to_string()),
                schema_id: None,
                deserializer_id: self.id(),
            }),
            Err(e) => Err(DeserializeError::Decode(e.to_string())),
        }
    }
}

#[test]
fn a_user_deserializer_plugs_in() {
    let d: &dyn Deserializer = &Plain;
    let v = d.decode(b"hello", &DecodeCtx::default()).unwrap();
    assert_eq!(v.deserializer_id, "plain");
    assert!(matches!(v.json, JsonValue::Str(ref s) if s == "hello"));
    assert!(matches!(
        d.decode(&[0xff], &DecodeCtx::default()),
        Err(DeserializeError::Decode(_))
    ));
}
