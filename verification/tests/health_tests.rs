use espcam_logger::health::{health_log_line, HealthSample};

fn sample(timestamp: &str, voltage: f32) -> HealthSample {
    HealthSample {
        timestamp: timestamp.as_bytes().to_vec(),
        voltage: format!("{}", voltage).into_bytes(),
    }
}

#[test]
fn health_post_of_the_scenario_gains_its_line() {
    let line = health_log_line(&sample("2024-01-01T22:00:00", 3.7));
    assert_eq!(line, b"2024-01-01T22:00:00,3.7\n".to_vec());
}

#[test]
fn health_line_of_a_flat_battery() {
    let line = health_log_line(&sample("2024-01-01T22:00:00", 0.0));
    assert_eq!(line, b"2024-01-01T22:00:00,0\n".to_vec());
}

#[test]
fn health_line_is_not_validated() {
    let odd = HealthSample { timestamp: b"not a time".to_vec(), voltage: b"-1e9".to_vec() };
    assert_eq!(health_log_line(&odd), b"not a time,-1e9\n".to_vec());
    let empty = HealthSample { timestamp: Vec::new(), voltage: Vec::new() };
    assert_eq!(health_log_line(&empty), b",\n".to_vec());
}

#[test]
fn log_of_many_arrivals_holds_one_line_each() {
    let count: usize = 50;
    let mut arrivals: Vec<HealthSample> = Vec::new();
    for i in 0..count {
        let k = (i * 37) % count;
        arrivals.push(sample(&format!("2024-01-01T22:00:{:02}", k), 3.0 + (k as f32) / 100.0));
    }
    let mut log: Vec<u8> = Vec::new();
    for s in &arrivals {
        log.extend_from_slice(&health_log_line(s));
    }
    assert_eq!(log.last(), Some(&b'\n'));
    let lines: Vec<&[u8]> = log[..log.len() - 1].split(|b| *b == b'\n').collect();
    assert_eq!(lines.len(), count);
    for (line, s) in lines.iter().zip(arrivals.iter()) {
        let mut expected = s.timestamp.clone();
        expected.push(b',');
        expected.extend_from_slice(&s.voltage);
        assert_eq!(line.to_vec(), expected);
    }
}

#[test]
fn log_only_grows() {
    let mut log: Vec<u8> = b"2023-12-31T22:00:00,3.9\n".to_vec();
    let before = log.clone();
    log.extend_from_slice(&health_log_line(&sample("2024-01-01T22:00:00", 3.7)));
    assert_eq!(&log[..before.len()], &before[..]);
    assert_eq!(log, b"2023-12-31T22:00:00,3.9\n2024-01-01T22:00:00,3.7\n".to_vec());
}

#[test]
fn health_post_as_json_gains_its_line() {
    let body = b"{\"voltage\": 3.7, \"timestamp\": \"2024-01-01T22:00:00\"}";
    let parsed: serde_json::Value = serde_json::from_slice(body).unwrap();
    let voltage = parsed.get("voltage").and_then(|v| v.as_f64()).unwrap() as f32;
    let timestamp = parsed.get("timestamp").and_then(|t| t.as_str()).unwrap();
    let mut log: Vec<u8> = Vec::new();
    log.extend_from_slice(&health_log_line(&sample(timestamp, voltage)));
    assert_eq!(log, b"2024-01-01T22:00:00,3.7\n".to_vec());
}
