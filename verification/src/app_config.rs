//! The launcher's own configuration file: where it is, the default written
//! when it is missing, and the database path it names.
use vstd::prelude::*;
use crate::discovery::{joined_path, path_join};
use crate::text::{chars_of, is_blank, is_blank_str, push_chars, push_str, string_from_chars, starts_with};

verus! {

broadcast use vstd::string::group_string_axioms;

/// The launcher's configuration.
#[derive(Debug)]
pub struct AppConfig {
    pub db_path: String,
}

/// A path with a leading `~/` replaced by the home directory (`/tmp`
/// when it is unknown).
pub open spec fn tilde_expanded(path: Seq<char>, home: Option<Seq<char>>) -> Seq<char> {
    if starts_with(path, "~/"@) {
        let h = match home {
            Some(h) => h,
            None => "/tmp"@,
        };
        h + "/"@ + path.skip(2)
    } else {
        path
    }
}

/// Expands a leading `~/` in a path.
pub fn expand_tilde(path: &str, home: Option<&str>) -> (r: String)
    ensures
        r@ == tilde_expanded(path@, match home { Some(h) => Some(h@), None => None }),
{
    let v = chars_of(path);
    let prefix = chars_of("~/");
    if crate::text::starts_with_chars(&v, &prefix) {
        proof { reveal_strlit("~/"); }
        let mut out: Vec<char> = Vec::new();
        match home {
            Some(h) => push_str(&mut out, h),
            None => push_str(&mut out, "/tmp"),
        }
        push_str(&mut out, "/");
        let ghost before = out@;
        let mut i: usize = 2;
        while i < v.len()
            invariant
                2 <= i <= v@.len(),
                out@ == before + v@.subrange(2, i as int),
            decreases v@.len() - i,
        {
            out.push(v[i]);
            i = i + 1;
            assert(out@ =~= before + v@.subrange(2, i as int));
        }
        assert(v@.subrange(2, v@.len() as int) =~= v@.skip(2));
        string_from_chars(&out)
    } else {
        path.to_string()
    }
}

/// Where the configuration file is: the path given explicitly, or else
/// under the home directory (`/tmp` when unknown), in `config_dir`.
pub fn resolve_config_path(explicit: Option<&str>, home: Option<&str>, config_dir: &str, file_name: &str) -> (r: String)
    ensures
        r@ == match explicit {
            Some(p) => p@,
            None => joined_path(
                joined_path(match home { Some(h) => h@, None => "/tmp"@ }, config_dir@),
                file_name@,
            ),
        },
{
    match explicit {
        Some(p) => p.to_string(),
        None => {
            let base = match home {
                Some(h) => h,
                None => "/tmp",
            };
            let dir = path_join(base, config_dir);
            path_join(dir.as_str(), file_name)
        }
    }
}

/// The default configuration file: the default database path, as JSON.
pub open spec fn default_config_text(default_db_path: Seq<char>) -> Seq<char> {
    "{\n  \"db_path\": \""@ + default_db_path + "\"\n}\n"@
}

/// The text of the default configuration file.
pub fn default_config_json(default_db_path: &str) -> (r: String)
    ensures
        r@ == default_config_text(default_db_path@),
{
    let mut v: Vec<char> = Vec::new();
    push_str(&mut v, "{\n  \"db_path\": \"");
    push_str(&mut v, default_db_path);
    push_str(&mut v, "\"\n}\n");
    string_from_chars(&v)
}

/// What looking for the configuration file found.
#[derive(Debug)]
pub enum ConfigFileState {
    /// There was no file; the default one was written.
    CreatedDefault,
    /// There was no file, and its directory (first) could not be created (the error, second).
    CreateDirFailed(String, String),
    /// There was no file, and the default could not be written: the error.
    WriteFailed(String),
    /// The file could not be read: the error.
    ReadFailed(String),
    /// The file is not a valid configuration: the parser's error.
    ParseFailed(String),
    /// The file's `db_path`, if it has one.
    Parsed(Option<String>),
}

/// The example shown with configuration errors.
pub open spec fn config_example() -> Seq<char> {
    "{\n  \"db_path\": \"/absolute/path/to/overseer.sqlite3\"\n}"@
}

/// The configuration, or why there is none: a missing file yields the
/// default database path once the default file is written; a read `db_path`
/// is used with `~/` expanded, unless it is blank.
pub open spec fn loaded_config(
    path: Seq<char>,
    state: ConfigFileState,
    home: Option<Seq<char>>,
    default_db_path: Seq<char>,
) -> Result<Seq<char>, Seq<char>> {
    match state {
        ConfigFileState::CreatedDefault => Ok(default_db_path),
        ConfigFileState::CreateDirFailed(dir, e) => Err("无法创建配置目录 "@ + dir@ + "："@ + e@),
        ConfigFileState::WriteFailed(e) => Err("无法写入默认配置文件 "@ + path + "："@ + e@),
        ConfigFileState::ReadFailed(e) => Err(
            "无法读取配置文件 "@ + path + "。\n原因: "@ + e@ + "\n建议: 检查文件权限或删除后重新创建"@,
        ),
        ConfigFileState::ParseFailed(e) => Err(
            "配置文件 "@ + path + " JSON 解析失败。\n原因: "@ + e@ + "\n建议: 检查 JSON 格式，示例:\n"@ + config_example(),
        ),
        ConfigFileState::Parsed(db) => {
            let raw = match db {
                Some(d) => d@,
                None => Seq::empty(),
            };
            let expanded = tilde_expanded(raw, home);
            if is_blank(expanded) {
                Err("配置文件 "@ + path + " 中 db_path 为空。\n建议: 设置 db_path 为有效的 SQLite 数据库路径，例如:\n"@ + config_example())
            } else {
                Ok(expanded)
            }
        },
    }
}

/// Loads the launcher's configuration from what was found at `config_path`.
pub fn load_app_config(
    config_path: &str,
    state: ConfigFileState,
    home: Option<&str>,
    default_db_path: &str,
) -> (r: Result<AppConfig, String>)
    ensures
        match loaded_config(config_path@, state, match home { Some(h) => Some(h@), None => None }, default_db_path@) {
            Ok(db) => r matches Ok(c) && c.db_path@ == db,
            Err(e) => r matches Err(m) && m@ == e,
        },
{
    let example = "{\n  \"db_path\": \"/absolute/path/to/overseer.sqlite3\"\n}";
    let mut m: Vec<char> = Vec::new();
    match state {
        ConfigFileState::CreatedDefault => Ok(AppConfig { db_path: default_db_path.to_string() }),
        ConfigFileState::CreateDirFailed(dir, e) => {
            push_str(&mut m, "无法创建配置目录 ");
            push_str(&mut m, dir.as_str());
            push_str(&mut m, "：");
            push_str(&mut m, e.as_str());
            Err(string_from_chars(&m))
        }
        ConfigFileState::WriteFailed(e) => {
            push_str(&mut m, "无法写入默认配置文件 ");
            push_str(&mut m, config_path);
            push_str(&mut m, "：");
            push_str(&mut m, e.as_str());
            Err(string_from_chars(&m))
        }
        ConfigFileState::ReadFailed(e) => {
            push_str(&mut m, "无法读取配置文件 ");
            push_str(&mut m, config_path);
            push_str(&mut m, "。\n原因: ");
            push_str(&mut m, e.as_str());
            push_str(&mut m, "\n建议: 检查文件权限或删除后重新创建");
            Err(string_from_chars(&m))
        }
        ConfigFileState::ParseFailed(e) => {
            push_str(&mut m, "配置文件 ");
            push_str(&mut m, config_path);
            push_str(&mut m, " JSON 解析失败。\n原因: ");
            push_str(&mut m, e.as_str());
            push_str(&mut m, "\n建议: 检查 JSON 格式，示例:\n");
            push_str(&mut m, example);
            Err(string_from_chars(&m))
        }
        ConfigFileState::Parsed(db) => {
            let raw = match db {
                Some(d) => d,
                None => String::new(),
            };
            let expanded = expand_tilde(raw.as_str(), home);
            if is_blank_str(expanded.as_str()) {
                push_str(&mut m, "配置文件 ");
                push_str(&mut m, config_path);
                push_str(&mut m, " 中 db_path 为空。\n建议: 设置 db_path 为有效的 SQLite 数据库路径，例如:\n");
                push_str(&mut m, example);
                Err(string_from_chars(&m))
            } else {
                Ok(AppConfig { db_path: expanded })
            }
        }
    }
}

} // verus!
