//! The downloader tool's configuration: the output formats on offer and the
//! command-line templates for its two modes.

use vstd::prelude::*;
use crate::platform::same_text;

verus! {

/// A command line with placeholders.
#[derive(Debug)]
pub struct CommandTemplate {
    pub args: Vec<String>,
}

/// An output format: its identifier, its name for display, the extension of the
/// files it produces, and the arguments that select it.
#[derive(Debug)]
pub struct DownloadFormat {
    pub id: String,
    pub display: String,
    pub ext: String,
    pub args: Vec<String>,
}

/// The downloader tool's configuration.
#[derive(Debug)]
pub struct YtdlpConfig {
    command_fetch_url: CommandTemplate,
    command_download: CommandTemplate,
    formats: Vec<DownloadFormat>,
}

/// The texts of a run of strings, in order.
pub open spec fn texts(args: Seq<String>) -> Seq<Seq<char>> {
    args.map_values(|a: String| a@)
}

/// Copies a run of strings.
pub fn clone_strings(args: &Vec<String>) -> (copy: Vec<String>)
    ensures
        copy@ == args@,
{
    let mut copy: Vec<String> = Vec::new();
    let mut i: usize = 0;
    while i < args.len()
        invariant
            i <= args.len(),
            copy@ == args@.take(i as int),
        decreases args.len() - i,
    {
        copy.push(args[i].clone());
        assert(copy@ =~= args@.take(i + 1));
        i += 1;
    }
    assert(copy@ =~= args@);
    copy
}

/// The mathematical content of a [`DownloadFormat`].
pub ghost struct DownloadFormatView {
    pub id: Seq<char>,
    pub display: Seq<char>,
    pub ext: Seq<char>,
    pub args: Seq<Seq<char>>,
}

impl View for DownloadFormat {
    type V = DownloadFormatView;

    open spec fn view(&self) -> DownloadFormatView {
        DownloadFormatView {
            id: self.id@,
            display: self.display@,
            ext: self.ext@,
            args: texts(self.args@),
        }
    }
}

/// The models of a run of formats, in order.
pub open spec fn format_views(formats: Seq<DownloadFormat>) -> Seq<DownloadFormatView> {
    formats.map_values(|f: DownloadFormat| f@)
}

/// The mathematical content of a [`YtdlpConfig`].
pub ghost struct YtdlpConfigView {
    pub command_fetch_url: Seq<Seq<char>>,
    pub command_download: Seq<Seq<char>>,
    pub formats: Seq<DownloadFormatView>,
}

impl View for YtdlpConfig {
    type V = YtdlpConfigView;

    closed spec fn view(&self) -> YtdlpConfigView {
        YtdlpConfigView {
            command_fetch_url: texts(self.command_fetch_url.args@),
            command_download: texts(self.command_download.args@),
            formats: format_views(self.formats@),
        }
    }
}

/// Whether `formats[i]` is the first format with identifier `id`.
pub open spec fn is_format(formats: Seq<DownloadFormatView>, id: Seq<char>, i: int) -> bool {
    &&& 0 <= i < formats.len()
    &&& formats[i].id == id
    &&& forall|j: int| 0 <= j < i ==> (#[trigger] formats[j]).id != id
}

/// What an argument of the fetch template stands for: the placeholder for the
/// source URL stands for the URL, anything else for itself.
pub open spec fn fetch_argument(arg: Seq<char>, source_url: Seq<char>) -> Seq<char> {
    if arg == "{{source_url}}"@ {
        source_url
    } else {
        arg
    }
}

/// What an argument of the download template stands for: the three placeholders
/// for the URL, the format's arguments and the destination; anything else for
/// itself.
pub open spec fn download_argument(
    arg: Seq<char>,
    source_url: Seq<char>,
    format_args: Seq<Seq<char>>,
    destination_file: Seq<char>,
) -> Seq<Seq<char>> {
    if arg == "{{source_url}}"@ {
        seq![source_url]
    } else if arg == "{{format_args}}"@ {
        format_args
    } else if arg == "{{destination_file}}"@ {
        seq![destination_file]
    } else {
        seq![arg]
    }
}

/// The download template, rendered: each argument replaced by what it stands
/// for, in order.
pub open spec fn rendered_download(
    template: Seq<Seq<char>>,
    source_url: Seq<char>,
    format_args: Seq<Seq<char>>,
    destination_file: Seq<char>,
) -> Seq<Seq<char>>
    decreases template.len(),
{
    if template.len() == 0 {
        Seq::empty()
    } else {
        rendered_download(template.drop_last(), source_url, format_args, destination_file)
            + download_argument(template.last(), source_url, format_args, destination_file)
    }
}

impl YtdlpConfig {
    /// A configuration from its parts.
    pub fn new(fetch_url_args: Vec<String>, download_args: Vec<String>, formats: Vec<DownloadFormat>) -> (config: YtdlpConfig)
        ensures
            config@ == (YtdlpConfigView {
                command_fetch_url: texts(fetch_url_args@),
                command_download: texts(download_args@),
                formats: format_views(formats@),
            }),
    {
        YtdlpConfig {
            command_fetch_url: CommandTemplate { args: fetch_url_args },
            command_download: CommandTemplate { args: download_args },
            formats,
        }
    }

    /// The arguments of the fetch template, unrendered.
    pub fn fetch_url_template(&self) -> (args: &Vec<String>)
        ensures
            texts(args@) == self@.command_fetch_url,
    {
        &self.command_fetch_url.args
    }

    /// The arguments of the download template, unrendered.
    pub fn download_template(&self) -> (args: &Vec<String>)
        ensures
            texts(args@) == self@.command_download,
    {
        &self.command_download.args
    }

    /// Whether a format with identifier `format` is on offer.
    pub open spec fn offers(&self, format: Seq<char>) -> bool {
        exists|i: int| is_format(self@.formats, format, i)
    }

    /// The first format with identifier `format`, if one is on offer.
    pub fn try_get_format(&self, format: &str) -> (found: Option<&DownloadFormat>)
        ensures
            match found {
                Some(f) => exists|i: int| is_format(self@.formats, format@, i) && self@.formats[i] == f@,
                None => !self.offers(format@),
            },
    {
        let ghost views = self@.formats;
        let mut i: usize = 0;
        while i < self.formats.len()
            invariant
                i <= self.formats.len(),
                views == self@.formats,
                forall|j: int| 0 <= j < i ==> (#[trigger] views[j]).id != format@,
            decreases self.formats.len() - i,
        {
            if same_text(self.formats[i].id.as_str(), format) {
                assert(is_format(views, format@, i as int));
                return Some(&self.formats[i]);
            }
            i += 1;
        }
        assert forall|k: int| !is_format(views, format@, k) by {
            if 0 <= k < views.len() {
                assert(views[k].id != format@);
            }
        }
        None
    }

    /// The first format with identifier `format`, which must be on offer.
    pub fn get_format(&self, format: &str) -> (found: &DownloadFormat)
        requires
            self.offers(format@),
        ensures
            exists|i: int| is_format(self@.formats, format@, i) && self@.formats[i] == found@,
    {
        match self.try_get_format(format) {
            Some(f) => f,
            None => vstd::pervasive::unreached(),
        }
    }

    /// All formats on offer, in configured order.
    pub fn get_all_formats(&self) -> (formats: &[DownloadFormat])
        ensures
            format_views(formats@) == self@.formats,
    {
        self.formats.as_slice()
    }

    /// The command line that lists what `source_url` holds: the fetch template
    /// with the URL in place of its placeholder.
    pub fn render_fetch_url_command(&self, source_url: &str) -> (args: Vec<String>)
        ensures
            texts(args@) == self@.command_fetch_url.map_values(
                |a: Seq<char>| fetch_argument(a, source_url@),
            ),
    {
        let template = &self.command_fetch_url.args;
        let mut args: Vec<String> = Vec::new();
        let mut i: usize = 0;
        while i < template.len()
            invariant
                i <= template.len(),
                args.len() == i,
                forall|k: int|
                    0 <= k < i ==> (#[trigger] args[k])@ == fetch_argument(
                        template[k]@,
                        source_url@,
                    ),
            decreases template.len() - i,
        {
            if same_text(template[i].as_str(), "{{source_url}}") {
                args.push(source_url.to_owned());
            } else {
                args.push(template[i].clone());
            }
            i += 1;
        }
        assert(texts(args@) =~= self@.command_fetch_url.map_values(
            |a: Seq<char>| fetch_argument(a, source_url@),
        ));
        args
    }

    /// The command line that downloads `source_url` in `format` to
    /// `destination_file`: the download template with each placeholder replaced
    /// by what it stands for. Anything that is no placeholder passes through.
    pub fn render_download_command(
        &self,
        source_url: &str,
        format: &DownloadFormat,
        destination_file: &str,
    ) -> (args: Vec<String>)
        ensures
            texts(args@) == rendered_download(
                self@.command_download,
                source_url@,
                format@.args,
                destination_file@,
            ),
    {
        let template = &self.command_download.args;
        let ghost views = texts(template@);
        let mut args: Vec<String> = Vec::new();
        let mut i: usize = 0;
        assert(texts(args@) =~= rendered_download(
            views.take(0),
            source_url@,
            format@.args,
            destination_file@,
        ));
        while i < template.len()
            invariant
                i <= template.len(),
                views == texts(template@),
                texts(args@) == rendered_download(
                    views.take(i as int),
                    source_url@,
                    format@.args,
                    destination_file@,
                ),
            decreases template.len() - i,
        {
            let ghost before = texts(args@);
            assert(views.take(i + 1).drop_last() =~= views.take(i as int));
            assert(views.take(i + 1).last() == template[i as int]@);
            let arg = template[i].as_str();
            if same_text(arg, "{{source_url}}") {
                args.push(source_url.to_owned());
                assert(texts(args@) =~= before + seq![source_url@]);
            } else if same_text(arg, "{{format_args}}") {
                let mut k: usize = 0;
                while k < format.args.len()
                    invariant
                        k <= format.args.len(),
                        texts(args@) == before + format@.args.take(k as int),
                    decreases format.args.len() - k,
                {
                    let ghost so_far = texts(args@);
                    args.push(format.args[k].clone());
                    assert(texts(args@) =~= so_far.push(format.args[k as int]@));
                    assert(format@.args.take(k + 1) =~= format@.args.take(k as int).push(
                        format.args[k as int]@,
                    ));
                    assert(texts(args@) =~= before + format@.args.take(k + 1));
                    k += 1;
                }
                assert(format@.args.take(k as int) =~= format@.args);
            } else if same_text(arg, "{{destination_file}}") {
                args.push(destination_file.to_owned());
                assert(texts(args@) =~= before + seq![destination_file@]);
            } else {
                args.push(template[i].clone());
                assert(texts(args@) =~= before + seq![template[i as int]@]);
            }
            i += 1;
        }
        assert(views.take(i as int) =~= views);
        args
    }
}

} // verus!
