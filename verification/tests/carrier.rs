use rustracing::carrier::{
    ExtractFromTextMap, GetHttpHeaderField, InjectToTextMap, SetHttpHeaderField, TextMap,
};
use rustracing::span::{BaggageItem, SpanContext};
use rustracing::{Error, ErrorKind};
use std::collections::BTreeMap;
use std::collections::HashMap;

#[derive(Clone, Debug, PartialEq)]
struct TestState(u64);

impl InjectToTextMap<HashMap<String, String>> for TestState {
    fn inject_to_text_map(
        context: &SpanContext<Self>,
        carrier: &mut HashMap<String, String>,
    ) -> rustracing::Result<()> {
        carrier.set("ot-state", &context.state().0.to_string());
        let mut encoded = String::new();
        for item in context.baggage_items() {
            if !encoded.is_empty() {
                encoded.push(',');
            }
            encoded.push_str(item.name());
            encoded.push('=');
            encoded.push_str(item.value());
        }
        carrier.set("ot-baggage", &encoded);
        Ok(())
    }
}

impl ExtractFromTextMap<HashMap<String, String>> for TestState {
    fn extract_from_text_map(
        carrier: &HashMap<String, String>,
    ) -> rustracing::Result<Option<SpanContext<Self>>> {
        let state = match carrier.get("ot-state") {
            Some(v) => match v.parse::<u64>() {
                Ok(n) => TestState(n),
                Err(_) => return Err(Error::new(ErrorKind::Other)),
            },
            None => return Ok(None),
        };
        let mut items = Vec::new();
        if let Some(encoded) = carrier.get("ot-baggage") {
            for pair in encoded.split(',') {
                if pair.is_empty() {
                    continue;
                }
                let mut halves = pair.splitn(2, '=');
                let name = halves.next().unwrap_or("");
                let value = halves.next().unwrap_or("");
                items.push(BaggageItem::new(name, value));
            }
        }
        Ok(Some(SpanContext::new(state, items)))
    }
}

#[test]
fn text_map_round_trip_preserves_state_and_baggage() {
    let items = vec![
        BaggageItem::new("b", "2"),
        BaggageItem::new("a", "1"),
        BaggageItem::new("b", "3"),
    ];
    let context = SpanContext::new(TestState(42), items);
    let mut carrier: HashMap<String, String> = HashMap::new();
    context.inject_to_text_map(&mut carrier).unwrap();

    let extracted = SpanContext::<TestState>::extract_from_text_map(&carrier).unwrap().unwrap();
    assert_eq!(extracted.state(), context.state());
    let original: Vec<(String, String)> = context
        .baggage_items()
        .iter()
        .map(|b| (b.name().to_string(), b.value().to_string()))
        .collect();
    let returned: Vec<(String, String)> = extracted
        .baggage_items()
        .iter()
        .map(|b| (b.name().to_string(), b.value().to_string()))
        .collect();
    assert_eq!(original, returned);
    assert_eq!(
        returned,
        vec![("a".to_string(), "1".to_string()), ("b".to_string(), "3".to_string())]
    );
}

#[test]
fn extraction_from_an_empty_carrier_yields_none() {
    let carrier: HashMap<String, String> = HashMap::new();
    assert!(SpanContext::<TestState>::extract_from_text_map(&carrier).unwrap().is_none());
}

#[test]
fn extraction_of_malformed_data_is_an_error() {
    let mut carrier: HashMap<String, String> = HashMap::new();
    carrier.set("ot-state", "not a number");
    let err = SpanContext::<TestState>::extract_from_text_map(&carrier).unwrap_err();
    assert_eq!(err.kind(), ErrorKind::Other);
}

#[test]
fn hash_map_is_a_text_map_carrier() {
    let mut map: HashMap<String, String> = HashMap::new();
    TextMap::set(&mut map, "key", "value");
    assert_eq!(TextMap::get(&map, "key"), Some("value"));
    assert_eq!(TextMap::get(&map, "missing"), None);
}

#[test]
fn btree_map_is_a_text_map_carrier() {
    let mut map: BTreeMap<String, String> = BTreeMap::new();
    TextMap::set(&mut map, "key", "value");
    assert_eq!(TextMap::get(&map, "key"), Some("value"));
    assert_eq!(TextMap::get(&map, "missing"), None);
}

#[test]
fn hash_map_is_an_http_header_carrier() {
    let mut map: HashMap<String, String> = HashMap::new();
    map.set_http_header_field("traceparent", "abc").unwrap();
    assert_eq!(map.http_header_field("traceparent"), Some("abc"));
    assert_eq!(map.http_header_field("missing"), None);
}

impl rustracing::carrier::InjectToHttpHeader<HashMap<String, String>> for TestState {
    fn inject_to_http_header(
        context: &SpanContext<Self>,
        carrier: &mut HashMap<String, String>,
    ) -> rustracing::Result<()> {
        carrier.set_http_header_field("ot-state", &context.state().0.to_string())?;
        Ok(())
    }
}

impl rustracing::carrier::ExtractFromHttpHeader<HashMap<String, String>> for TestState {
    fn extract_from_http_header(
        carrier: &HashMap<String, String>,
    ) -> rustracing::Result<Option<SpanContext<Self>>> {
        match carrier.http_header_field("ot-state") {
            Some(v) => match v.parse::<u64>() {
                Ok(n) => Ok(Some(SpanContext::new(TestState(n), Vec::new()))),
                Err(_) => Err(Error::new(ErrorKind::Other)),
            },
            None => Ok(None),
        }
    }
}

#[test]
fn http_header_round_trip_preserves_state() {
    let context = SpanContext::new(TestState(7), Vec::new());
    let mut carrier: HashMap<String, String> = HashMap::new();
    context.inject_to_http_header(&mut carrier).unwrap();
    let extracted = SpanContext::<TestState>::extract_from_http_header(&carrier).unwrap().unwrap();
    assert_eq!(extracted.state(), &TestState(7));

    let empty: HashMap<String, String> = HashMap::new();
    assert!(SpanContext::<TestState>::extract_from_http_header(&empty).unwrap().is_none());
}

impl rustracing::carrier::InjectToBinary<Vec<u8>> for TestState {
    fn inject_to_binary(
        context: &SpanContext<Self>,
        carrier: &mut Vec<u8>,
    ) -> rustracing::Result<()> {
        carrier.extend_from_slice(&context.state().0.to_be_bytes());
        Ok(())
    }
}

impl rustracing::carrier::ExtractFromBinary<Vec<u8>> for TestState {
    fn extract_from_binary(carrier: &mut Vec<u8>) -> rustracing::Result<Option<SpanContext<Self>>> {
        if carrier.len() < 8 {
            return Ok(None);
        }
        let mut bytes = [0u8; 8];
        bytes.copy_from_slice(&carrier[..8]);
        carrier.drain(..8);
        Ok(Some(SpanContext::new(TestState(u64::from_be_bytes(bytes)), Vec::new())))
    }
}

#[test]
fn binary_round_trip_preserves_state() {
    let context = SpanContext::new(TestState(90210), Vec::new());
    let mut carrier: Vec<u8> = Vec::new();
    context.inject_to_binary(&mut carrier).unwrap();
    let extracted = SpanContext::<TestState>::extract_from_binary(&mut carrier).unwrap().unwrap();
    assert_eq!(extracted.state(), &TestState(90210));

    let mut empty: Vec<u8> = Vec::new();
    assert!(SpanContext::<TestState>::extract_from_binary(&mut empty).unwrap().is_none());
}
