use quilkin::{
    Address, Capture, CaptureStrategy, Config, ConfigError, Endpoint, Filter, FilterChain, Metrics,
    Prefix,
    ReadContext, RegexCapture, Strategy, Suffix, Value, WriteContext, CAPTURED_BYTES,
};

const TOKEN_KEY: &str = "TOKEN";

fn localhost(port: u16) -> Address {
    Address::V4 { octets: 0x7f00_0001, port }
}

fn context(contents: &[u8]) -> ReadContext {
    let endpoints = vec![Endpoint::new(localhost(81))];
    ReadContext::new(endpoints, localhost(80), contents.to_vec())
}

fn assert_end_strategy(filter: &mut Capture, key: &str, remove: bool) {
    let response = filter.read(context(b"helloabc")).unwrap();

    if remove {
        assert_eq!(b"hello".to_vec(), response.contents);
    } else {
        assert_eq!(b"helloabc".to_vec(), response.contents);
    }

    let token = response
        .metadata
        .get(&key.to_string())
        .unwrap()
        .as_bytes()
        .unwrap();
    assert_eq!(b"abc", &token[..]);
}

#[test]
fn read() {
    let config = Config {
        metadata_key: TOKEN_KEY.into(),
        strategy: Strategy::Suffix(Suffix {
            size: 3,
            remove: true,
        }),
    };

    let mut filter = Capture::from_config(config.into());
    assert_end_strategy(&mut filter, TOKEN_KEY, true);
}

#[test]
fn read_overflow_capture_size() {
    let config = Config {
        metadata_key: TOKEN_KEY.into(),
        strategy: Strategy::Suffix(Suffix {
            size: 99,
            remove: true,
        }),
    };
    let mut filter = Capture::from_config(config.into());
    let response = filter.read(context(b"abc"));

    assert!(response.is_none());
    let count = filter.metrics().packets_dropped_total.get();
    assert_eq!(1, count);
}

#[test]
fn write() {
    let config = Config {
        strategy: Strategy::Suffix(Suffix {
            size: 0,
            remove: false,
        }),
        metadata_key: TOKEN_KEY.into(),
    };
    let mut filter = Capture::from_config(config.into());
    let endpoint = Endpoint::new(localhost(90));
    let response = filter
        .write(WriteContext::new(
            endpoint.clone(),
            localhost(90),
            localhost(70),
            b"hello".to_vec(),
        ))
        .unwrap();
    assert_eq!(endpoint, response.endpoint);
    assert_eq!(localhost(90), response.source);
    assert_eq!(localhost(70), response.dest);
    assert_eq!(b"hello".to_vec(), response.contents);
    assert!(!response.metadata.contains_key(&TOKEN_KEY.to_string()));
    assert!(!response
        .metadata
        .contains_key(&format!("{}/is_present", TOKEN_KEY)));
    assert_eq!(0, filter.metrics().packets_dropped_total.get());
}

#[test]
fn regex_capture() {
    let mut metrics = Metrics::new();
    let end = RegexCapture::new(".{3}$").unwrap();
    assert_eq!(".{3}$", end.as_str());
    let mut contents = b"helloabc".to_vec();
    let result = end.capture(&mut contents, &mut metrics).unwrap();
    assert_eq!(Value::Bytes(b"abc".to_vec()), result);
    assert_eq!(b"helloabc".to_vec(), contents);
}

#[test]
fn end_capture() {
    let mut metrics = Metrics::new();
    let mut end = Suffix {
        size: 3,
        remove: false,
    };
    let mut contents = b"helloabc".to_vec();
    let result = end.capture(&mut contents, &mut metrics).unwrap();
    assert_eq!(Value::Bytes(b"abc".to_vec()), result);
    assert_eq!(b"helloabc".to_vec(), contents);

    end.remove = true;

    let result = end.capture(&mut contents, &mut metrics).unwrap();
    assert_eq!(Value::Bytes(b"abc".to_vec()), result);
    assert_eq!(b"hello".to_vec(), contents);
}

#[test]
fn beginning_capture() {
    let mut metrics = Metrics::new();
    let mut beg = Prefix {
        size: 3,
        remove: false,
    };
    let mut contents = b"abchello".to_vec();

    let result = beg.capture(&mut contents, &mut metrics);
    assert_eq!(Some(Value::Bytes(b"abc".to_vec())), result);
    assert_eq!(b"abchello".to_vec(), contents);

    beg.remove = true;

    let result = beg.capture(&mut contents, &mut metrics);
    assert_eq!(Some(Value::Bytes(b"abc".to_vec())), result);
    assert_eq!(b"hello".to_vec(), contents);
}

#[test]
fn suffix_keep_records_token_and_presence() {
    let config = Config {
        metadata_key: TOKEN_KEY.into(),
        strategy: Strategy::Suffix(Suffix {
            size: 3,
            remove: false,
        }),
    };
    let mut filter = Capture::from_config(Some(config));
    let response = filter.read(context(b"helloabc")).unwrap();
    assert_eq!(b"helloabc".to_vec(), response.contents);
    assert_eq!(
        Some(&Value::Bytes(b"abc".to_vec())),
        response.metadata.get(&TOKEN_KEY.to_string())
    );
    assert_eq!(
        Some(&Value::Bool(true)),
        response.metadata.get(&"TOKEN/is_present".to_string())
    );
    assert_eq!(localhost(80), response.source);
    assert_eq!(vec![Endpoint::new(localhost(81))], response.endpoints);
}

#[test]
fn prefix_remove_through_filter() {
    let config = Config {
        metadata_key: TOKEN_KEY.into(),
        strategy: Strategy::Prefix(Prefix {
            size: 3,
            remove: true,
        }),
    };
    let mut filter = Capture::from_config(Some(config));
    let response = filter.read(context(b"abchello")).unwrap();
    assert_eq!(b"hello".to_vec(), response.contents);
    assert_eq!(
        Some(&Value::Bytes(b"abc".to_vec())),
        response.metadata.get(&TOKEN_KEY.to_string())
    );
}

#[test]
fn undersized_payload_is_dropped_without_token() {
    let mut filter = Capture::new(
        Config::new(Strategy::Suffix(Suffix {
            size: 99,
            remove: true,
        })),
        Metrics::new(),
    );
    let mut ctx = context(b"abc");
    assert!(!filter.apply(&mut ctx));
    assert_eq!(b"abc".to_vec(), ctx.contents);
    assert!(!ctx.metadata.contains_key(&CAPTURED_BYTES.to_string()));
    assert_eq!(
        Some(&Value::Bool(false)),
        ctx.metadata
            .get(&format!("{}/is_present", CAPTURED_BYTES))
    );
    assert_eq!(1, filter.metrics().packets_dropped_total.get());
    assert!(filter.read(context(b"ab")).is_none());
    assert_eq!(2, filter.metrics().packets_dropped_total.get());
}

#[test]
fn prefix_short_payload_is_dropped() {
    let mut metrics = Metrics::new();
    let beg = Prefix {
        size: 4,
        remove: true,
    };
    let mut contents = b"abc".to_vec();
    assert_eq!(None, beg.capture(&mut contents, &mut metrics));
    assert_eq!(b"abc".to_vec(), contents);
    assert_eq!(1, metrics.packets_dropped_total.get());
}

#[test]
fn exact_size_payload_is_captured_whole() {
    let mut metrics = Metrics::new();
    let end = Suffix {
        size: 3,
        remove: true,
    };
    let mut contents = b"abc".to_vec();
    assert_eq!(
        Some(Value::Bytes(b"abc".to_vec())),
        end.capture(&mut contents, &mut metrics)
    );
    assert!(contents.is_empty());
    assert_eq!(0, metrics.packets_dropped_total.get());
}

#[test]
fn regex_capture_through_filter_default_key() {
    let strategy = Strategy::Regex(RegexCapture::new(".{3}$").unwrap());
    let mut filter = Capture::from_config(Some(Config::new(strategy)));
    let response = filter.read(context(b"helloabc")).unwrap();
    assert_eq!(b"helloabc".to_vec(), response.contents);
    assert_eq!(
        Some(&Value::Bytes(b"abc".to_vec())),
        response.metadata.get(&CAPTURED_BYTES.to_string())
    );
}

#[test]
fn regex_without_match_drops() {
    let mut metrics = Metrics::new();
    let re = RegexCapture::new("xyz").unwrap();
    let mut contents = b"helloabc".to_vec();
    assert_eq!(None, re.capture(&mut contents, &mut metrics));
    assert_eq!(b"helloabc".to_vec(), contents);
    assert_eq!(1, metrics.packets_dropped_total.get());
}

#[test]
fn regex_match_bounds_select_bytes() {
    let mut metrics = Metrics::new();
    let contents = b"helloabc".to_vec();
    assert_eq!(
        Some(Value::Bytes(b"llo".to_vec())),
        RegexCapture::capture_match(&contents, Some((2, 5)), &mut metrics)
    );
    assert_eq!(None, RegexCapture::capture_match(&contents, None, &mut metrics));
    assert_eq!(1, metrics.packets_dropped_total.get());
}

#[test]
fn invalid_regex_is_config_error() {
    assert_eq!(
        ConfigError::InvalidRegex,
        RegexCapture::new("foo(bar").unwrap_err()
    );
}

#[test]
fn capture_keys() {
    let filter = keyed("K", Strategy::Suffix(Suffix { size: 1, remove: false }));
    assert_eq!("K", filter.metadata_key());
    assert_eq!("K/is_present", filter.is_present_key());
}

#[test]
fn missing_config_is_error() {
    assert_eq!(
        ConfigError::MissingConfig,
        Capture::try_from_config(None).err().unwrap()
    );
}

#[test]
fn default_key_is_captured_bytes() {
    let config = Config::new(Strategy::Suffix(Suffix {
        size: 3,
        remove: false,
    }));
    assert_eq!("quilkin.dev/captured_bytes", config.metadata_key);
    let mut filter = Capture::try_from_config(Some(config)).ok().unwrap();
    assert_end_strategy(&mut filter, CAPTURED_BYTES, false);
}

fn keyed(key: &str, strategy: Strategy) -> Capture {
    Capture::from_config(Some(Config {
        metadata_key: key.to_string(),
        strategy,
    }))
}

#[test]
fn chain_applies_filters_in_order() {
    let mut chain = FilterChain::new(vec![
        keyed("A", Strategy::Prefix(Prefix { size: 3, remove: true })),
        keyed("B", Strategy::Suffix(Suffix { size: 3, remove: true })),
    ]);
    assert_eq!(2, chain.len());
    let out = chain.read(context(b"abchelloxyz")).unwrap();
    assert_eq!(b"hello".to_vec(), out.contents);
    assert_eq!(Some(&Value::Bytes(b"abc".to_vec())), out.metadata.get(&"A".to_string()));
    assert_eq!(Some(&Value::Bytes(b"xyz".to_vec())), out.metadata.get(&"B".to_string()));
    assert_eq!(Some(&Value::Bool(true)), out.metadata.get(&"B/is_present".to_string()));
}

#[test]
fn chain_stops_at_first_drop() {
    let mut chain = FilterChain::new(vec![
        keyed("A", Strategy::Prefix(Prefix { size: 9, remove: true })),
        keyed("B", Strategy::Suffix(Suffix { size: 9, remove: true })),
    ]);
    assert!(chain.read(context(b"abc")).is_none());
    assert_eq!(1, chain.filter(0).metrics().packets_dropped_total.get());
    assert_eq!(0, chain.filter(1).metrics().packets_dropped_total.get());
}

#[test]
fn chain_write_passes_through() {
    let mut chain = FilterChain::new(vec![keyed("A", Strategy::Prefix(Prefix { size: 1, remove: true }))]);
    let out = chain
        .write(WriteContext::new(Endpoint::new(localhost(9)), localhost(9), localhost(8), b"xy".to_vec()))
        .unwrap();
    assert_eq!(b"xy".to_vec(), out.contents);
    assert_eq!(localhost(8), out.dest);
}
