//! The immutable process configuration. Reading the environment is the
//! caller's concern; this module derives the directory layout and the
//! defaults from plain settings values.
use crate::text::{dec_string, u16_to_dec};
use vstd::prelude::*;

verus! {

/// Configuration constructed once at startup and passed to each component.
pub struct Config {
    pub discord_token: String,
    pub download_dir: String,
    pub converted_dir: String,
    pub ffmpeg_bin: String,
    pub ffmpeg_args: String,
    pub host: String,
    pub port: u16,
    pub public_url: String,
}

/// The transcoder argument template used when none is configured.
pub open spec fn default_ffmpeg_args() -> Seq<char> {
    "-y -i $INPUT -c:v libx264 -preset veryfast -crf 23 -threads 4 -c:a copy $OUTPUT"@
}

/// The public URL used when none is configured: `http://{host}:{port}`.
pub open spec fn default_public_url(host: Seq<char>, port: u16) -> Seq<char> {
    "http://"@ + host + ":"@ + dec_string(port as nat)
}

impl Config {
    /// Derives the full configuration from the given settings; `None` picks
    /// the documented default.
    pub fn new(
        discord_token: String,
        data_path: &str,
        ffmpeg_bin: Option<String>,
        ffmpeg_args: Option<String>,
        host: String,
        port: u16,
        public_url: Option<String>,
    ) -> (c: Config)
        ensures
            c.discord_token@ == discord_token@,
            c.download_dir@ == data_path@ + "/downloads"@,
            c.converted_dir@ == data_path@ + "/converted"@,
            c.ffmpeg_bin@ == (match ffmpeg_bin {
                Some(b) => b@,
                None => "ffmpeg"@,
            }),
            c.ffmpeg_args@ == (match ffmpeg_args {
                Some(a) => a@,
                None => default_ffmpeg_args(),
            }),
            c.host@ == host@,
            c.port == port,
            c.public_url@ == (match public_url {
                Some(u) => u@,
                None => default_public_url(host@, port),
            }),
    {
        let mut download_dir = String::from_str(data_path);
        download_dir.append("/downloads");
        let mut converted_dir = String::from_str(data_path);
        converted_dir.append("/converted");
        let ffmpeg_bin = match ffmpeg_bin {
            Some(b) => b,
            None => String::from_str("ffmpeg"),
        };
        let ffmpeg_args = match ffmpeg_args {
            Some(a) => a,
            None => String::from_str(
                "-y -i $INPUT -c:v libx264 -preset veryfast -crf 23 -threads 4 -c:a copy $OUTPUT",
            ),
        };
        let public_url = match public_url {
            Some(u) => u,
            None => {
                let mut u = String::from_str("http://");
                u.append(host.as_str());
                u.append(":");
                let p = u16_to_dec(port);
                u.append(p.as_str());
                u
            },
        };
        Config {
            discord_token,
            download_dir,
            converted_dir,
            ffmpeg_bin,
            ffmpeg_args,
            host,
            port,
            public_url,
        }
    }
}

} // verus!
