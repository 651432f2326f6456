use crate::entry::FileInfo;
use crate::text::push_char;
use vstd::prelude::*;
use vstd::string::StringExecFns;

verus! {

/// A security context, `user:role:type:range`.
#[derive(Debug, Clone)]
pub struct SELinuxContext {
    pub user: String,
    pub role: String,
    pub type_: String,
    pub range: String,
}

/// Whether contexts are looked up and shown, and how wide they may get.
#[derive(Debug, Clone, Copy)]
pub struct SELinuxConfig {
    pub enabled: bool,
    pub show_context: bool,
    pub truncate_context: bool,
    pub max_context_width: Option<usize>,
}

/// Turns raw context text into contexts and formats them for display.
#[derive(Debug, Clone, Copy)]
pub struct SELinuxHandler {
    config: SELinuxConfig,
}

/// Why a context could not be had.
#[derive(Debug, Clone)]
pub enum SELinuxError {
    Disabled,
    NotFound,
    AccessDenied,
    InvalidContext,
    Other(String),
}

/// The colon-separated fields of `s[0..i]`: those already closed by a colon,
/// and the one still open.
pub open spec fn split_upto(s: Seq<char>, i: nat) -> (Seq<Seq<char>>, Seq<char>)
    decreases i,
{
    if i == 0 {
        (Seq::empty(), Seq::empty())
    } else {
        let (done, cur) = split_upto(s, (i - 1) as nat);
        if s[i - 1] == ':' {
            (done.push(cur), Seq::empty())
        } else {
            (done, cur.push(s[i - 1]))
        }
    }
}

/// The fields of `s` between colons, as `str::split(':')` gives them.
pub open spec fn colon_fields(s: Seq<char>) -> Seq<Seq<char>> {
    let (done, cur) = split_upto(s, s.len());
    done.push(cur)
}

/// A context of exactly four fields, read from its text form; `None` for
/// any other number of fields.
pub open spec fn parsed_context(s: Seq<char>) -> Option<(Seq<char>, Seq<char>, Seq<char>, Seq<char>)> {
    let f = colon_fields(s);
    if f.len() == 4 {
        Some((f[0], f[1], f[2], f[3]))
    } else {
        None
    }
}

pub open spec fn context_fields(c: SELinuxContext) -> (Seq<char>, Seq<char>, Seq<char>, Seq<char>) {
    (c.user@, c.role@, c.type_@, c.range@)
}

/// `user:role:type:range` from the four fields.
pub open spec fn full_of_fields(f: (Seq<char>, Seq<char>, Seq<char>, Seq<char>)) -> Seq<char> {
    f.0 + ":"@ + f.1 + ":"@ + f.2 + ":"@ + f.3
}

/// `user:role:type:range`.
pub open spec fn full_context(c: SELinuxContext) -> Seq<char> {
    full_of_fields(context_fields(c))
}

/// A context text as shown under `cfg`: in full, or, where truncation is on
/// and it is longer than the maximum width, its first `max - 3` characters
/// and `...`.
pub open spec fn shown_text(cfg: SELinuxConfig, f: Seq<char>) -> Seq<char> {
    match cfg.max_context_width {
        Some(m) => if cfg.truncate_context && f.len() > m {
            f.subrange(0, if m >= 3 { m - 3 } else { 0 }) + "..."@
        } else {
            f
        },
        None => f,
    }
}

/// A context as shown under `cfg`.
pub open spec fn shown_context(cfg: SELinuxConfig, c: SELinuxContext) -> Seq<char> {
    shown_text(cfg, full_context(c))
}

/// The label that raw context text gives under `cfg`: none where contexts
/// are disabled, nothing was found, or the text is not a context.
pub open spec fn label_of(cfg: SELinuxConfig, raw: Option<String>) -> Option<Seq<char>> {
    if cfg.enabled && raw is Some {
        match parsed_context(raw->0@) {
            Some(f) => Some(shown_text(cfg, full_of_fields(f))),
            None => None,
        }
    } else {
        None
    }
}

/// The longest text among the labels `0..i` that are present, 0 for none.
pub open spec fn max_label_upto(ls: Seq<Option<Seq<char>>>, i: int) -> nat
    decreases i,
{
    if i <= 0 {
        0
    } else {
        let rest = max_label_upto(ls, i - 1);
        match ls[i - 1] {
            Some(l) => if l.len() > rest {
                l.len()
            } else {
                rest
            },
            None => rest,
        }
    }
}

/// The shown form of each context that is present.
pub open spec fn shown_contexts(cfg: SELinuxConfig, cs: Seq<Option<SELinuxContext>>) -> Seq<
    Option<Seq<char>>,
> {
    Seq::new(
        cs.len(),
        |i: int|
            match cs[i] {
                Some(c) => Some(shown_context(cfg, c)),
                None => None,
            },
    )
}

/// The width of the context column: the longest of the labels, or 0 where
/// contexts are not shown.
pub open spec fn label_width(cfg: SELinuxConfig, ls: Seq<Option<Seq<char>>>) -> nat {
    if !cfg.enabled || !cfg.show_context {
        0
    } else {
        max_label_upto(ls, ls.len() as int)
    }
}

/// The width of the context column over contexts.
pub open spec fn context_width(cfg: SELinuxConfig, cs: Seq<Option<SELinuxContext>>) -> nat {
    label_width(cfg, shown_contexts(cfg, cs))
}

/// Splits text at every colon.
pub fn split_fields(s: &str) -> (r: Vec<String>)
    ensures
        r@.len() == colon_fields(s@).len(),
        forall|i: int| 0 <= i < r@.len() ==> #[trigger] r@[i]@ == colon_fields(s@)[i],
{
    let n = s.unicode_len();
    let mut done: Vec<String> = Vec::new();
    let mut cur = String::new();
    let mut i: usize = 0;
    while i < n
        invariant
            n == s@.len(),
            i <= n,
            done@.len() == split_upto(s@, i as nat).0.len(),
            forall|k: int| 0 <= k < done@.len() ==> #[trigger] done@[k]@ == split_upto(s@, i as nat).0[k],
            cur@ == split_upto(s@, i as nat).1,
        decreases n - i,
    {
        let c = s.get_char(i);
        if c == ':' {
            let ghost d0 = done@;
            done.push(cur);
            cur = String::new();
            assert forall|k: int| 0 <= k < done@.len() implies #[trigger] done@[k]@ == split_upto(
                s@,
                (i + 1) as nat,
            ).0[k] by {
                if k < d0.len() {
                    assert(done@[k] == d0[k]);
                }
            }
        } else {
            push_char(&mut cur, c);
        }
        i = i + 1;
    }
    let ghost d0 = done@;
    done.push(cur);
    assert forall|k: int| 0 <= k < done@.len() implies #[trigger] done@[k]@ == colon_fields(s@)[k] by {
        if k < d0.len() {
            assert(done@[k] == d0[k]);
        }
    }
    done
}

impl SELinuxError {
    /// A sentence that describes the error.
    pub fn message(&self) -> (r: String)
        ensures
            r@ == match self {
                SELinuxError::Disabled => "SELinux is disabled"@,
                SELinuxError::NotFound => "SELinux context not found"@,
                SELinuxError::AccessDenied => "Access denied to SELinux context"@,
                SELinuxError::InvalidContext => "Invalid SELinux context"@,
                SELinuxError::Other(m) => "SELinux error: "@ + m@,
            },
    {
        match self {
            SELinuxError::Disabled => String::from_str("SELinux is disabled"),
            SELinuxError::NotFound => String::from_str("SELinux context not found"),
            SELinuxError::AccessDenied => String::from_str("Access denied to SELinux context"),
            SELinuxError::InvalidContext => String::from_str("Invalid SELinux context"),
            SELinuxError::Other(m) => {
                let mut s = String::from_str("SELinux error: ");
                s.append(m.as_str());
                s
            },
        }
    }
}

impl SELinuxHandler {
    pub closed spec fn config(&self) -> SELinuxConfig {
        self.config
    }

    pub fn new(config: SELinuxConfig) -> (r: Self)
        ensures
            r.config() == config,
    {
        SELinuxHandler { config }
    }

    /// Reads a context from its text form `user:role:type:range`.
    pub fn parse_context(&self, text: &str) -> (r: Result<SELinuxContext, SELinuxError>)
        ensures
            match parsed_context(text@) {
                Some(f) => r matches Ok(c) && context_fields(c) == f,
                None => r matches Err(SELinuxError::InvalidContext),
            },
    {
        let parts = split_fields(text);
        if parts.len() != 4 {
            return Err(SELinuxError::InvalidContext);
        }
        Ok(
            SELinuxContext {
                user: parts[0].clone(),
                role: parts[1].clone(),
                type_: parts[2].clone(),
                range: parts[3].clone(),
            },
        )
    }

    /// The context of an entry from the raw text that was looked up for it:
    /// none where contexts are disabled, nothing was found, or the text is
    /// not a context (a label that cannot be read is left out, never fatal).
    pub fn get_context(&self, raw: &Option<String>) -> (r: Result<
        Option<SELinuxContext>,
        SELinuxError,
    >)
        ensures
            r is Ok,
            r matches Ok(x) && (x is Some <==> label_of(self.config(), *raw) is Some),
            r matches Ok(Some(c)) ==> context_fields(c) == parsed_context(raw->0@)->0
                && label_of(self.config(), *raw) == Some(shown_context(self.config(), c)),
    {
        if !self.config.enabled {
            return Ok(None);
        }
        match raw {
            None => Ok(None),
            Some(text) => match self.parse_context(text.as_str()) {
                Ok(c) => Ok(Some(c)),
                Err(_) => Ok(None),
            },
        }
    }

    /// Whether an entry has a context, given whether looking it up succeeded.
    pub fn has_context(&self, lookup_succeeded: bool) -> (r: bool)
        ensures
            r == (self.config().enabled && lookup_succeeded),
    {
        self.config.enabled && lookup_succeeded
    }

    /// A context as it is shown, truncated where the configuration asks.
    pub fn format_context(&self, context: &SELinuxContext) -> (r: String)
        ensures
            r@ == shown_context(self.config(), *context),
    {
        let mut full = String::new();
        full.append(context.user.as_str());
        full.append(":");
        full.append(context.role.as_str());
        full.append(":");
        full.append(context.type_.as_str());
        full.append(":");
        full.append(context.range.as_str());
        match self.config.max_context_width {
            Some(m) => {
                let len = full.as_str().unicode_len();
                if self.config.truncate_context && len > m {
                    let keep: usize = if m >= 3 {
                        m - 3
                    } else {
                        0
                    };
                    let mut cut = String::from_str(full.as_str().substring_char(0, keep));
                    cut.append("...");
                    cut
                } else {
                    full
                }
            },
            None => full,
        }
    }

    /// The width of the context column over all entries' contexts.
    pub fn get_context_width(&self, contexts: &Vec<Option<SELinuxContext>>) -> (r: usize)
        ensures
            r == context_width(self.config(), contexts@),
    {
        if !self.config.enabled || !self.config.show_context {
            return 0;
        }
        let ghost ls = shown_contexts(self.config, contexts@);
        let mut w: usize = 0;
        let mut i: usize = 0;
        while i < contexts.len()
            invariant
                self.config.enabled,
                self.config.show_context,
                ls == shown_contexts(self.config, contexts@),
                i <= contexts@.len(),
                w == max_label_upto(ls, i as int),
            decreases contexts@.len() - i,
        {
            match &contexts[i] {
                Some(c) => {
                    let s = self.format_context(c);
                    let len = s.as_str().unicode_len();
                    if len > w {
                        w = len;
                    }
                },
                None => {},
            }
            i = i + 1;
        }
        w
    }
}

impl FileInfo {
    /// The entry's context under the handler, from the raw text the entry
    /// carries; none where it has no readable one.
    pub fn get_selinux_context(&self, handler: &SELinuxHandler) -> (r: Result<
        Option<SELinuxContext>,
        SELinuxError,
    >)
        ensures
            r is Ok,
            r matches Ok(x) && (x is Some <==> label_of(handler.config(), self.security_context)
                is Some),
            r matches Ok(Some(c)) ==> label_of(handler.config(), self.security_context) == Some(
                shown_context(handler.config(), c),
            ),
    {
        handler.get_context(&self.security_context)
    }
}

/// Access to an entry's security context.
pub trait SELinuxExt {
    fn get_selinux_context(&self, handler: &SELinuxHandler) -> Result<Option<SELinuxContext>, SELinuxError>;
}

impl SELinuxExt for FileInfo {
    fn get_selinux_context(&self, handler: &SELinuxHandler) -> Result<Option<SELinuxContext>, SELinuxError> {
        handler.get_context(&self.security_context)
    }
}

} // verus!
