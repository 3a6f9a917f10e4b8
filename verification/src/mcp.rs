//! Listing the configured MCP servers.
use vstd::prelude::*;
use crate::config::{AppConfig, McpServerConfig};
use crate::text::{chars_of, join, owned, push_all, push_str, string_of};

verus! {

/// How one server is listed.
pub open spec fn server_line(name: Seq<char>, server: McpServerConfig) -> Seq<char> {
    match server {
        McpServerConfig::Stdio { command, args } => name + ": stdio "@ + command@ + " "@ + join(
            crate::map::string_texts(args@),
            " "@,
        ),
        McpServerConfig::Http { url, bearer_token_env } => name + ": http "@ + url@ + match bearer_token_env {
            Some(e) => " auth=$"@ + e@,
            None => Seq::<char>::empty(),
        },
    }
}

/// The lines listing the servers, in name order; one line saying there
/// are none when none is configured.
pub open spec fn server_lines_text(servers: Seq<(String, McpServerConfig)>) -> Seq<Seq<char>> {
    if servers.len() == 0 {
        seq!["No MCP servers configured."@]
    } else {
        servers.map_values(|e: (String, McpServerConfig)| server_line(e.0@, e.1))
    }
}

fn join_strings(parts: &Vec<String>) -> (r: Vec<char>)
    ensures
        r@ == join(crate::map::string_texts(parts@), " "@),
{
    let mut v: Vec<Vec<char>> = Vec::new();
    let mut i: usize = 0;
    while i < parts.len()
        invariant
            i <= parts@.len(),
            crate::text::views(v@) == crate::map::string_texts(parts@).take(i as int),
        decreases parts.len() - i,
    {
        let ghost before = crate::text::views(v@);
        v.push(chars_of(parts[i].as_str()));
        assert(crate::text::views(v@) =~= before.push(parts@[i as int]@));
        assert(crate::map::string_texts(parts@).take(i + 1) =~= crate::map::string_texts(parts@).take(
            i as int,
        ).push(parts@[i as int]@));
        i = i + 1;
    }
    assert(crate::map::string_texts(parts@).take(parts@.len() as int) =~= crate::map::string_texts(
        parts@,
    ));
    crate::text::join_chars(&v, " ")
}

pub fn server_lines(config: &AppConfig) -> (r: Vec<String>)
    ensures
        crate::map::string_texts(r@) == server_lines_text(config.mcp.servers.entries@),
{
    let entries = &config.mcp.servers.entries;
    let mut r: Vec<String> = Vec::new();
    if entries.len() == 0 {
        r.push(owned("No MCP servers configured."));
        assert(crate::map::string_texts(r@) =~= seq!["No MCP servers configured."@]);
        return r;
    }
    let ghost target = entries@.map_values(|e: (String, McpServerConfig)| server_line(e.0@, e.1));
    let mut i: usize = 0;
    while i < entries.len()
        invariant
            i <= entries@.len(),
            target == entries@.map_values(|e: (String, McpServerConfig)| server_line(e.0@, e.1)),
            crate::map::string_texts(r@) == target.take(i as int),
        decreases entries.len() - i,
    {
        let mut line = chars_of(entries[i].0.as_str());
        match &entries[i].1 {
            McpServerConfig::Stdio { command, args } => {
                push_str(&mut line, ": stdio ");
                push_str(&mut line, command.as_str());
                push_str(&mut line, " ");
                push_all(&mut line, &join_strings(args));
            },
            McpServerConfig::Http { url, bearer_token_env } => {
                push_str(&mut line, ": http ");
                push_str(&mut line, url.as_str());
                match bearer_token_env {
                    Some(e) => {
                        push_str(&mut line, " auth=$");
                        push_str(&mut line, e.as_str());
                    },
                    None => {},
                }
            },
        }
        assert(line@ =~= target[i as int]);
        let ghost before = crate::map::string_texts(r@);
        r.push(string_of(&line));
        assert(crate::map::string_texts(r@) =~= before.push(target[i as int]));
        assert(target.take(i + 1) =~= target.take(i as int).push(target[i as int]));
        i = i + 1;
    }
    assert(target.take(entries@.len() as int) =~= target);
    r
}

} // verus!
