//! The run configuration: the mode, the files to read and write, the
//! optional password, and the cipher parameters, resolved once and passed by
//! value into the encode and decode paths. Checking that the input file
//! exists on disk is the caller's business.

use crate::crypt::CipherKeys;
use crate::keys;
use vstd::prelude::*;
use vstd::string::StrSliceExecFns;
use vstd::string::StringExecFns;

verus! {

/// The mode in which the configuration will work for the current run.
#[derive(Clone, Copy, Debug, PartialEq, Eq, Structural)]
pub enum Mode {
    Write,
    Read,
    File,
    Unknown,
}

/// A simple configuration setup for the run. Exposes a password, mode,
/// output file and cipher parameters to be used during both encoding and
/// decoding.
#[derive(Debug)]
pub struct Config {
    pub read_file: Option<String>,
    pub write_file: Option<String>,
    pub file: Option<String>,
    pub password: Option<String>,
    pub mode: Mode,
    pub output_file: String,
    pub keys: CipherKeys,
}

/// The characters after the last path separator: the file's own name.
pub open spec fn file_name_of(s: Seq<char>) -> Seq<char>
    decreases s.len(),
{
    if s.len() == 0 {
        s
    } else if s.last() == '/' {
        Seq::empty()
    } else {
        file_name_of(s.drop_last()) + seq![s.last()]
    }
}

impl Config {
    /// The input file the run will use, by mode.
    pub open spec fn file_to_read_spec(&self) -> Option<String> {
        match self.mode {
            Mode::File => self.file,
            Mode::Read => self.read_file,
            _ => None,
        }
    }

    /// An accessor to the input file the run will use.
    pub fn file_to_read(&self) -> (r: &Option<String>)
        ensures
            *r == self.file_to_read_spec(),
    {
        match self.mode {
            Mode::File => &self.file,
            Mode::Read => &self.read_file,
            _ => &None,
        }
    }

    /// Sets a mode by modifying self: a file to read wins over a plain
    /// file, and an undecided mode defaults to writing.
    pub fn set_mode(self) -> (r: Self)
        ensures
            r.mode == (if self.read_file is Some {
                Mode::Read
            } else if self.file is Some {
                Mode::File
            } else if self.mode == Mode::Unknown {
                Mode::Write
            } else {
                self.mode
            }),
            r.read_file == self.read_file,
            r.write_file == self.write_file,
            r.file == self.file,
            r.password == self.password,
            r.output_file == self.output_file,
            r.keys == self.keys,
    {
        let mut c = self;
        if c.file.is_some() {
            c.mode = Mode::File;
        }
        if c.read_file.is_some() {
            c.mode = Mode::Read;
        }
        if c.mode == Mode::Unknown {
            c.mode = Mode::Write;
        }
        c
    }

    /// Sets the output file by modifying self: an explicit output file is
    /// kept, a requested write file is taken next, and otherwise the input
    /// file's name is placed under the result directory.
    pub fn set_output(self) -> (r: Self)
        requires
            (self.output_file@.len() == 0 && self.write_file is None) ==> (self.file is Some
                || self.read_file is Some),
        ensures
            r.output_file@ == (if self.output_file@.len() > 0 {
                self.output_file@
            } else if self.write_file is Some {
                self.write_file->Some_0@
            } else if self.file is Some {
                "result/"@ + file_name_of(self.file->Some_0@)
            } else {
                "result/"@ + file_name_of(self.read_file->Some_0@)
            }),
            r.read_file == self.read_file,
            r.write_file == self.write_file,
            r.file == self.file,
            r.password == self.password,
            r.mode == self.mode,
            r.keys == self.keys,
    {
        let mut c = self;
        if !c.output_file.as_str().is_empty() {
            return c;
        }
        if let Some(out) = &c.write_file {
            c.output_file = out.clone();
            return c;
        }
        let name: String = {
            let basis: &String = if let Some(f) = &c.file {
                f
            } else if let Some(f) = &c.read_file {
                f
            } else {
                proof {
                    assert(false);
                }
                vstd::pervasive::unreached()
            };
            let s: &str = basis.as_str();
            let n: usize = s.unicode_len();
            let mut cut: usize = 0;
            let mut i: usize = 0;
            while i < n
                invariant
                    n == s@.len(),
                    cut <= i <= n,
                    file_name_of(s@.take(i as int)) =~= s@.subrange(cut as int, i as int),
                decreases n - i,
            {
                let ch: char = s.get_char(i);
                proof {
                    assert(s@.take(i + 1).drop_last() =~= s@.take(i as int));
                    assert(s@.take(i + 1).last() == s@[i as int]);
                }
                if ch == '/' {
                    cut = i + 1;
                }
                proof {
                    assert(file_name_of(s@.take(i + 1)) =~= s@.subrange(cut as int, i + 1));
                }
                i = i + 1;
            }
            proof {
                assert(s@.take(n as int) =~= s@);
            }
            let tail: &str = s.substring_char(cut, n);
            let mut out: String = String::from_str("result/");
            out.append(tail);
            out
        };
        c.output_file = name;
        c
    }

    /// Sets the cipher parameters by modifying self.
    pub fn with_env(self, keys: CipherKeys) -> (r: Self)
        ensures
            r.keys == keys,
            r.read_file == self.read_file,
            r.write_file == self.write_file,
            r.file == self.file,
            r.password == self.password,
            r.mode == self.mode,
            r.output_file == self.output_file,
    {
        let mut c = self;
        c.keys = keys;
        c
    }

    /// Checks that the configuration is coherent before letting it
    /// propagate: a run that writes needs a file to take the image from.
    pub fn checked(self) -> (r: Result<Self, ()>)
        ensures
            r is Err <==> (self.mode == Mode::Write && self.file_to_read_spec() is None),
            r matches Ok(c) ==> c == self,
    {
        if self.mode == Mode::Write && self.file_to_read().is_none() {
            return Err(());
        }
        Ok(self)
    }

    /// Sets a password for self.
    pub fn set_password(&mut self, pass: String)
        ensures
            final(self).password == Some(pass),
            final(self).read_file == old(self).read_file,
            final(self).write_file == old(self).write_file,
            final(self).file == old(self).file,
            final(self).mode == old(self).mode,
            final(self).output_file == old(self).output_file,
            final(self).keys == old(self).keys,
    {
        self.password = Some(pass);
    }

    /// Builds a configuration around one image file: the mode decides
    /// whether the file is read back or used as the carrier, and an empty
    /// output name is replaced by the file's name under the result
    /// directory.
    pub fn new(
        mode: Mode,
        file: String,
        password: Option<String>,
        output_file: String,
        keys: CipherKeys,
    ) -> (r: Self)
        ensures
            r.mode == (if mode == Mode::Read {
                Mode::Read
            } else {
                Mode::File
            }),
            r.file == Some(file),
            r.read_file == (if mode == Mode::Read {
                Some(file)
            } else {
                None::<String>
            }),
            r.write_file is None,
            r.password == password,
            r.keys == keys,
            r.output_file@ == (if output_file@.len() > 0 {
                output_file@
            } else {
                "result/"@ + file_name_of(file@)
            }),
            r.file_to_read_spec() == Some(file),
    {
        let read_file: Option<String> = if mode == Mode::Read {
            Some(file.clone())
        } else {
            None
        };
        let c = Config {
            read_file,
            write_file: None,
            file: Some(file),
            mode,
            output_file,
            password,
            keys,
        };
        let c = c.set_mode().set_output().with_env(keys);
        match c.checked() {
            Ok(c) => c,
            Err(_) => {
                proof {
                    assert(false);
                }
                vstd::pervasive::unreached()
            },
        }
    }
}

/// Builds a configuration with the default cipher parameters around one
/// image file, as the end-to-end paths use it.
pub fn generate_config(pass: Option<String>, mode: Mode, image: String) -> (r: Config)
    ensures
        r.password == pass,
        r.keys == keys::default_keys(),
        r.mode == (if mode == Mode::Read {
            Mode::Read
        } else {
            Mode::File
        }),
        r.file_to_read_spec() == Some(image),
        r.output_file@ == "output.png"@,
{
    let env = keys::Env::new();
    let cipher_keys: CipherKeys = match keys::collect_env(env) {
        Ok(k) => k,
        Err(_) => {
            proof {
                assert(false);
            }
            vstd::pervasive::unreached()
        },
    };
    let out: String = String::from_str("output.png");
    proof {
        reveal_strlit("output.png");
        assert(out@.len() > 0);
    }
    Config::new(mode, image, pass, out, cipher_keys)
}

} // verus!
