use openclaw_manager::encoding::{base64_encode, utf16le_bytes};
use openclaw_manager::terminal::{env_powershell_launch_line, env_powershell_opened};

fn b64(bytes: &[u8]) -> String {
    base64_encode(&bytes.to_vec()).into_iter().collect()
}

fn decode_b64(s: &str) -> Vec<u8> {
    let table = b"ABCDEFGHIJKLMNOPQRSTUVWXYZabcdefghijklmnopqrstuvwxyz0123456789+/";
    let mut bits: u32 = 0;
    let mut nbits = 0;
    let mut out = Vec::new();
    for ch in s.bytes() {
        if ch == b'=' {
            break;
        }
        let v = table.iter().position(|&t| t == ch).expect("base64 digit") as u32;
        bits = (bits << 6) | v;
        nbits += 6;
        if nbits >= 8 {
            nbits -= 8;
            out.push((bits >> nbits) as u8);
            bits &= (1 << nbits) - 1;
        }
    }
    out
}

#[test]
fn base64_known_answers() {
    assert_eq!(b64(b""), "");
    assert_eq!(b64(b"M"), "TQ==");
    assert_eq!(b64(b"Ma"), "TWE=");
    assert_eq!(b64(b"Man"), "TWFu");
    assert_eq!(b64(b"Many hands"), "TWFueSBoYW5kcw==");
    assert_eq!(b64(&[0x61, 0x00]), "YQA=");
    assert_eq!(b64(&[0xff, 0xfe, 0xfd]), "//79");
    assert_eq!(b64(&[0xfb, 0xff]), "+/8=");
}

#[test]
fn base64_round_trips() {
    let data: Vec<u8> = (0..=255u8).chain((0..100u8).rev()).collect();
    for n in 0..data.len() {
        assert_eq!(decode_b64(&b64(&data[..n])), data[..n].to_vec());
    }
}

#[test]
fn utf16le_matches_encode_utf16() {
    for s in ["", "a", "OpenClaw 环境已就绪", "emoji 😀 and 𝄞", "\u{ffff}\u{10000}\u{10ffff}"] {
        let chars: Vec<char> = s.chars().collect();
        let want: Vec<u8> = s.encode_utf16().flat_map(|u| u.to_le_bytes()).collect();
        assert_eq!(utf16le_bytes(&chars), want, "{:?}", s);
    }
    assert_eq!(utf16le_bytes(&vec!['😀']), vec![0x3D, 0xD8, 0x00, 0xDE]);
}

fn decoded_command(line: &str) -> String {
    let prefix = "start powershell -NoExit -EncodedCommand ";
    assert!(line.starts_with(prefix));
    let bytes = decode_b64(&line[prefix.len()..]);
    assert_eq!(bytes.len() % 2, 0);
    let units: Vec<u16> = bytes.chunks(2).map(|c| u16::from_le_bytes([c[0], c[1]])).collect();
    String::from_utf16(&units).unwrap()
}

#[test]
fn powershell_command_without_env_file() {
    let line = env_powershell_launch_line("C:/Users/o'neil/.openclaw/node;C:/x", "C:\\cfg", None);
    assert_eq!(
        decoded_command(&line),
        "$env:PATH = 'C:\\Users\\o''neil\\.openclaw\\node;C:\\x' + ';' + $env:PATH; \
Write-Host 'OpenClaw 环境已就绪' -ForegroundColor Green; \
Write-Host '配置目录: C:\\cfg' -ForegroundColor Cyan"
    );
}

#[test]
fn powershell_command_with_env_file() {
    let env = "# comment\n\nexport API_KEY=\"abc\"\n NAME = 'it''s' \nNOEQUALS\nexport  X==y\n".to_string();
    let line = env_powershell_launch_line("/p", "/c'd", Some(env));
    assert_eq!(
        decoded_command(&line),
        "$env:PATH = '\\p' + ';' + $env:PATH; \
$env:API_KEY = 'abc'; \
$env:NAME = 'it''''s'; \
$env:X = '=y'; \
Write-Host 'OpenClaw 环境已就绪' -ForegroundColor Green; \
Write-Host '配置目录: /c''d' -ForegroundColor Cyan"
    );
    assert_eq!(env_powershell_opened(), "已打开 PowerShell（OpenClaw 环境已注入）");
}

#[test]
fn base64_length_is_four_per_started_group() {
    for n in 0..20usize {
        let data = vec![7u8; n];
        assert_eq!(b64(&data).len(), 4 * ((n + 2) / 3));
    }
}

#[test]
fn utf16_takes_one_or_two_units_per_char() {
    for s in ["abc", "😀😀", "a😀"] {
        let chars: Vec<char> = s.chars().collect();
        let units = utf16le_bytes(&chars).len() / 2;
        assert!(chars.len() <= units && units <= 2 * chars.len());
    }
}
