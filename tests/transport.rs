use huml_lsp::rpc::{decode_from_buffer_rpc, DecodeError, RPCMessageStream};

fn stream_of(bytes: &[u8]) -> RPCMessageStream {
    let mut stream = RPCMessageStream::new();
    stream.extend_from_reader(bytes);
    stream
}

#[test]
fn transport_should_deserialize_from_buf_with_payload() {
    let json_str =
        format!("Content-Length: 35\r\n\r\n{{\"jsonrpc\":\"2.0\",\"message\":\"Hello\"}}");

    let mut rpc_stream = stream_of(json_str.as_bytes());

    let message = rpc_stream
        .get_message_from_reader()
        .expect("Decode Failed")
        .unwrap();

    assert_eq!(message, json_str);
}

#[test]
fn transport_should_decode_multiple_messages() {
    let json_msg1 = "Content-Length: 35\r\n\r\n{\"jsonrpc\":\"2.0\",\"message\":\"Hello\"}";
    let json_msg2 = "Content-Length: 17\r\n\r\n{\"jsonrpc\":\"2.0\"}";
    let mut rpc_stream = stream_of(format!("{json_msg1}{json_msg2}").as_bytes());

    assert_eq!(rpc_stream.get_message_from_reader().unwrap().unwrap(), json_msg1);

    assert_eq!(rpc_stream.get_message_from_reader().unwrap().unwrap(), json_msg2);
}

#[test]
fn transport_should_wait_till_payload_ready() {
    let json_str =
        format!("Content-Length: 35\r\n\r\n{{\"jsonrpc\":\"2.0\",\"message\":\"Hello\"}}");

    let mut rpc_stream = RPCMessageStream::new();
    let chunks: Vec<&[u8]> = json_str.as_bytes().chunks(5).collect();
    for (i, chunk) in chunks.iter().enumerate() {
        rpc_stream.extend_from_reader(chunk);
        let polled = rpc_stream.get_message_from_reader().unwrap();
        if i + 1 < chunks.len() {
            assert_eq!(polled, None);
        } else {
            assert_eq!(polled.unwrap(), json_str);
        }
    }
}

#[test]
fn transport_should_err_for_invalid_header() {
    let json_str = format!("{{\"jsonrpc\":\"2.0\",\"message\":\"Hello\"}}");
    let mut rpc_stream = stream_of(json_str.as_bytes());

    assert!(matches!(
        rpc_stream.get_message_from_reader(),
        Err(DecodeError::MissingOrInvalidHeader)
    ));
}

#[test]
fn every_split_of_a_frame_gives_the_same_message() {
    let frame = "Content-Length: 17\r\n\r\n{\"jsonrpc\":\"2.0\"}";
    let bytes = frame.as_bytes();
    for cut in 0..=bytes.len() {
        for second_cut in cut..=bytes.len() {
            let mut stream = RPCMessageStream::new();
            let parts = [&bytes[..cut], &bytes[cut..second_cut], &bytes[second_cut..]];
            let mut received = Vec::new();
            let mut seen = 0;
            for part in parts {
                stream.extend_from_reader(part);
                seen += part.len();
                let polled = stream.get_message_from_reader().unwrap();
                if seen < bytes.len() {
                    assert_eq!(polled, None);
                } else if let Some(message) = polled {
                    received.push(message);
                }
            }
            assert_eq!(received, vec![frame.to_string()]);
        }
    }
}

#[test]
fn split_inside_a_multibyte_character_still_decodes() {
    let frame = "Content-Length: 4\r\n\r\n\"\u{e9}\"";
    let bytes = frame.as_bytes();
    let cut = bytes.len() - 2;
    let mut stream = RPCMessageStream::new();
    stream.extend_from_reader(&bytes[..cut]);
    assert_eq!(stream.get_message_from_reader().unwrap(), None);
    stream.extend_from_reader(&bytes[cut..]);
    assert_eq!(stream.get_message_from_reader().unwrap().unwrap(), frame);
}

#[test]
fn short_prefix_of_the_header_waits() {
    let mut stream = stream_of(b"Content-Len");
    assert_eq!(stream.get_message_from_reader().unwrap(), None);
}

#[test]
fn non_numeric_length_is_refused() {
    let mut stream = stream_of(b"Content-Length: 1x\r\n\r\n{}");
    assert!(matches!(
        stream.get_message_from_reader(),
        Err(DecodeError::ContentLengthNotNumber)
    ));
}

#[test]
fn empty_length_is_refused() {
    let mut stream = stream_of(b"Content-Length: \r\n\r\n{}");
    assert!(matches!(
        stream.get_message_from_reader(),
        Err(DecodeError::ContentLengthNotNumber)
    ));
}

#[test]
fn undecodable_length_field_is_refused() {
    let mut stream = stream_of(b"Content-Length: \xff\xfe\r\n\r\n{}");
    assert!(matches!(
        stream.get_message_from_reader(),
        Err(DecodeError::InvalidContentLengthEncoding)
    ));
}

#[test]
fn oversized_length_is_refused() {
    let mut stream = stream_of(b"Content-Length: 99999999999999999999999999\r\n\r\n");
    assert!(matches!(
        stream.get_message_from_reader(),
        Err(DecodeError::ContentLengthNotNumber)
    ));
}

#[test]
fn malformed_header_end_is_refused() {
    let mut stream = stream_of(b"Content-Length: 2\r\nX\r\n{}");
    assert!(matches!(
        stream.get_message_from_reader(),
        Err(DecodeError::MissingOrInvalidHeader)
    ));
}

#[test]
fn frame_that_is_not_text_is_refused_and_removed() {
    let mut bytes = b"Content-Length: 2\r\n\r\n\xff\xff".to_vec();
    bytes.extend_from_slice(b"Content-Length: 2\r\n\r\n{}");
    let mut stream = stream_of(&bytes);
    assert!(matches!(
        stream.get_message_from_reader(),
        Err(DecodeError::InvalidMessageEncoding)
    ));
    assert_eq!(
        stream.get_message_from_reader().unwrap().unwrap(),
        "Content-Length: 2\r\n\r\n{}"
    );
}

#[test]
fn buffer_should_deserialize_from_buf_with_payload() {
    let json_str =
        format!("Content-Length: 35\r\n\r\n{{\"jsonrpc\":\"2.0\",\"message\":\"Hello\"}}");

    let mut read_buf = json_str.as_bytes().to_vec();
    let decoded_data = decode_from_buffer_rpc(&mut read_buf)
        .expect("Decode failed")
        .unwrap();

    assert_eq!(decoded_data["jsonrpc"], "2.0");
    assert_eq!(decoded_data["message"], "Hello");
}

#[test]
fn buffer_should_decode_multiple_messages() {
    let json_str = "Content-Length: 35\r\n\r\n{\"jsonrpc\":\"2.0\",\"message\":\"Hello\"}";

    let mut read_buf = format!("{json_str}{json_str}").into_bytes();

    let decoded_data_first = decode_from_buffer_rpc(&mut read_buf)
        .expect("Decode failed")
        .unwrap();
    assert_eq!(decoded_data_first["jsonrpc"], "2.0");
    assert_eq!(decoded_data_first["message"], "Hello");

    let decoded_data_second = decode_from_buffer_rpc(&mut read_buf)
        .expect("Decode failed")
        .unwrap();
    assert_eq!(decoded_data_second["jsonrpc"], "2.0");
    assert_eq!(decoded_data_second["message"], "Hello");
    assert!(read_buf.is_empty());
}

#[test]
fn buffer_should_err_for_invalid_header() {
    let json_str = format!("{{\"jsonrpc\":\"2.0\",\"message\":\"Hello\"}}");
    let mut read_buf = json_str.into_bytes();
    let decoded_data = decode_from_buffer_rpc(&mut read_buf).unwrap_err();
    assert!(matches!(decoded_data, DecodeError::MissingOrInvalidHeader));
}

#[test]
fn buffer_reports_a_body_that_is_not_json() {
    let mut read_buf = b"Content-Length: 3\r\n\r\nnopContent-Length: 2\r\n\r\n{}".to_vec();
    assert!(matches!(
        decode_from_buffer_rpc(&mut read_buf),
        Err(DecodeError::JsonError(_))
    ));
    assert_eq!(read_buf, b"Content-Length: 2\r\n\r\n{}".to_vec());
}

#[test]
fn buffer_waits_for_the_rest_of_a_frame() {
    let mut read_buf = b"Content-Length: 10\r\n\r\n{}".to_vec();
    assert!(matches!(decode_from_buffer_rpc(&mut read_buf), Ok(None)));
    assert_eq!(read_buf.len(), 24);
}

#[test]
fn buffer_should_wait_till_payload_ready() {
    let json_str =
        format!("Content-Length: 35\r\n\r\n{{\"jsonrpc\":\"2.0\",\"message\":\"Hello\"}}");

    let mut read_buf = Vec::new();
    let chunks: Vec<&[u8]> = json_str.as_bytes().chunks(5).collect();
    for (i, chunk) in chunks.iter().enumerate() {
        read_buf.extend_from_slice(chunk);
        let decoded = decode_from_buffer_rpc(&mut read_buf).expect("Decode Failed");
        if i + 1 < chunks.len() {
            assert!(decoded.is_none());
        } else {
            let decoded_data = decoded.unwrap();
            assert_eq!(decoded_data["jsonrpc"], "2.0");
            assert_eq!(decoded_data["message"], "Hello");
        }
    }
}

#[test]
fn overflowing_length_is_refused_before_the_header_ends() {
    let mut stream = stream_of(b"Content-Length: 99999999999999999999999999\r");
    assert!(matches!(
        stream.get_message_from_reader(),
        Err(DecodeError::ContentLengthNotNumber)
    ));
    let mut stream = stream_of(b"Content-Length: 99999999999999999999999999\r\nX\r\n");
    assert!(matches!(
        stream.get_message_from_reader(),
        Err(DecodeError::ContentLengthNotNumber)
    ));
}

#[test]
fn length_that_fits_but_whose_frame_cannot_is_refused() {
    let header = format!("Content-Length: {}\r\n\r\n", usize::MAX - 3);
    let mut stream = stream_of(header.as_bytes());
    assert!(matches!(
        stream.get_message_from_reader(),
        Err(DecodeError::ContentLengthNotNumber)
    ));
}
