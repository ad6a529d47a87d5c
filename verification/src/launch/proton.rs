//! Installing the Proton helper, and commands without a console.

use vstd::prelude::*;

use crate::text::concat::{cat2, cat3, cat4};

verus! {

/// Where the helper is downloaded from.
pub const PROTON_AUTOGEN_URL: &'static str =
    "https://codeload.github.com/luoyuxiaoxiao/proton-autogen/tar.gz/refs/heads/main";

/// Longest wait for the authorised installation, in seconds.
pub const INSTALL_TIMEOUT_SECS: u64 = 600;

/// Where a standard stream goes.
#[derive(Clone, Copy, Debug, PartialEq, Eq, Structural)]
pub enum Stdio {
    Inherit,
    Null,
}

/// A command to run.
#[derive(Clone, Debug)]
pub struct CommandPlan {
    pub program: String,
    pub args: Vec<String>,
    pub stdin: Stdio,
    pub stdout: Stdio,
    pub stderr: Stdio,
}

/// Commands started from a program without a console.
pub trait CommandGuiExt: Sized {
    /// No standard stream is inherited.
    spec fn detached(&self) -> bool;

    /// Both commands run the same program with the same arguments.
    spec fn same_program(&self, other: &Self) -> bool;

    /// Cuts all standard streams off: a program without a console has none to
    /// hand on.
    fn gui_safe(&mut self) -> (command: &mut Self)
        ensures
            command.detached(),
            command.same_program(old(self)),
            *final(self) == *final(command),
    ;
}

impl CommandGuiExt for CommandPlan {
    open spec fn detached(&self) -> bool {
        self.stdin == Stdio::Null && self.stdout == Stdio::Null && self.stderr == Stdio::Null
    }

    open spec fn same_program(&self, other: &CommandPlan) -> bool {
        self.program == other.program && self.args == other.args
    }

    fn gui_safe(&mut self) -> (command: &mut CommandPlan) {
        self.stdin = Stdio::Null;
        self.stdout = Stdio::Null;
        self.stderr = Stdio::Null;
        self
    }
}

/// The command that looks for the helper: it succeeds if there is one.
pub fn find_helper_command() -> (plan: CommandPlan)
    ensures
        plan.program@ == "sh"@,
        plan.args@.len() == 2,
        plan.args@[0]@ == "-c"@,
        plan.args@[1]@ == "command -v proton-autogen"@,
        plan.stdin == Stdio::Inherit,
        plan.stdout == Stdio::Null,
        plan.stderr == Stdio::Null,
{
    CommandPlan {
        program: "sh".to_owned(),
        args: vec!["-c".to_owned(), "command -v proton-autogen".to_owned()],
        stdin: Stdio::Inherit,
        stdout: Stdio::Null,
        stderr: Stdio::Null,
    }
}

/// The command that unpacks the helper; the archive has one directory on top.
pub fn unpack_command(archive: &str, directory: &str) -> (plan: CommandPlan)
    ensures
        plan.program@ == "tar"@,
        plan.args@.len() == 5,
        plan.args@[0]@ == "-xzf"@,
        plan.args@[1]@ == archive@,
        plan.args@[2]@ == "--strip-components=1"@,
        plan.args@[3]@ == "-C"@,
        plan.args@[4]@ == directory@,
{
    CommandPlan {
        program: "tar".to_owned(),
        args: vec![
            "-xzf".to_owned(),
            archive.to_owned(),
            "--strip-components=1".to_owned(),
            "-C".to_owned(),
            directory.to_owned(),
        ],
        stdin: Stdio::Inherit,
        stdout: Stdio::Inherit,
        stderr: Stdio::Inherit,
    }
}

/// The command that installs the helper after asking for authorisation.
pub fn install_command(script: &str) -> (plan: CommandPlan)
    ensures
        plan.program@ == "pkexec"@,
        plan.args@.len() == 2,
        plan.args@[0]@ == "bash"@,
        plan.args@[1]@ == script@,
        plan.stdin == Stdio::Inherit,
        plan.stdout == Stdio::Null,
        plan.stderr == Stdio::Null,
{
    CommandPlan {
        program: "pkexec".to_owned(),
        args: vec!["bash".to_owned(), script.to_owned()],
        stdin: Stdio::Inherit,
        stdout: Stdio::Null,
        stderr: Stdio::Null,
    }
}

/// The command that users can run themselves.
pub open spec fn manual_text(directory: Seq<char>) -> Seq<char> {
    "sudo bash "@ + directory + "/install.sh"@
}

/// Where preparing the installation failed.
#[derive(Clone, Debug)]
pub enum InstallFailure {
    CacheDirectory(String),
    CreateDirectory(String),
    Download(String),
    WriteArchive(String),
    /// The unpacker could not be run, or failed.
    Unpack(String),
    /// The authorisation could not be started.
    Authorise(String),
}

/// Words a failed installation; once the script is unpacked, the message says
/// how to run it by hand.
pub fn install_message(directory: &str, failure: &InstallFailure) -> (text: String)
    ensures
        text@ == match *failure {
            InstallFailure::CacheDirectory(error) => "无法获取缓存目录: "@ + error@,
            InstallFailure::CreateDirectory(error) => "无法创建缓存目录: "@ + error@,
            InstallFailure::Download(error) => "下载 proton-autogen 失败: "@ + error@,
            InstallFailure::WriteArchive(error) => "写入临时文件失败: "@ + error@,
            InstallFailure::Unpack(error) => "解压失败: "@ + error@,
            InstallFailure::Authorise(error) => "无法启动授权窗口: "@ + error@ + "\n可手动安装: "@
                + manual_text(directory@),
        },
{
    match failure {
        InstallFailure::CacheDirectory(error) => cat2("无法获取缓存目录: ", error.as_str()),
        InstallFailure::CreateDirectory(error) => cat2("无法创建缓存目录: ", error.as_str()),
        InstallFailure::Download(error) => cat2("下载 proton-autogen 失败: ", error.as_str()),
        InstallFailure::WriteArchive(error) => cat2("写入临时文件失败: ", error.as_str()),
        InstallFailure::Unpack(error) => cat2("解压失败: ", error.as_str()),
        InstallFailure::Authorise(error) => {
            let manual: String = manual_command(directory);
            cat4("无法启动授权窗口: ", error.as_str(), "\n可手动安装: ", manual.as_str())
        },
    }
}

fn manual_command(directory: &str) -> (text: String)
    ensures
        text@ == manual_text(directory@),
{
    cat3("sudo bash ", directory, "/install.sh")
}

/// What a look at the running installation says.
#[derive(Clone, Debug)]
pub enum InstallPoll {
    /// It ended, well or not.
    Ended(bool),
    Running,
    Failed(String),
}

/// What to do about a running installation.
#[derive(Debug)]
pub enum InstallStep {
    /// Look again a little later.
    Wait,
    /// End it, then fail.
    Kill(String),
    Finish(Result<(), String>),
}

/// What a look at the running installation calls for.
pub open spec fn install_judged(
    directory: Seq<char>,
    poll: InstallPoll,
    past_deadline: bool,
    step: InstallStep,
) -> bool {
    match poll {
        InstallPoll::Ended(true) => step matches InstallStep::Finish(Ok(_)),
        InstallPoll::Ended(false) => step matches InstallStep::Finish(Err(text)) && text@
            == "安装未完成（取消了授权）。\n可手动安装: "@ + manual_text(directory),
        InstallPoll::Running => if past_deadline {
            step matches InstallStep::Kill(text) && text@ == "安装超时。\n可手动安装: "@
                + manual_text(directory)
        } else {
            step == InstallStep::Wait
        },
        InstallPoll::Failed(error) => step matches InstallStep::Finish(Err(text)) && text@
            == "等待安装进程失败: "@ + error@ + "\n可手动安装: "@ + manual_text(directory),
    }
}

/// Judges a look at the running installation.
pub fn judge_install(directory: &str, poll: &InstallPoll, past_deadline: bool) -> (step: InstallStep)
    ensures
        install_judged(directory@, *poll, past_deadline, step),
{
    let manual: String = manual_command(directory);
    match poll {
        InstallPoll::Ended(success) => {
            if *success {
                InstallStep::Finish(Ok(()))
            } else {
                InstallStep::Finish(
                    Err(cat2("安装未完成（取消了授权）。\n可手动安装: ", manual.as_str())),
                )
            }
        },
        InstallPoll::Running => {
            if past_deadline {
                InstallStep::Kill(cat2("安装超时。\n可手动安装: ", manual.as_str()))
            } else {
                InstallStep::Wait
            }
        },
        InstallPoll::Failed(error) => InstallStep::Finish(
            Err(
                cat4(
                    "等待安装进程失败: ",
                    error.as_str(),
                    "\n可手动安装: ",
                    manual.as_str(),
                ),
            ),
        ),
    }
}

/// Users are told to run the unpacked script with administrator rights; an
/// installation has ten minutes.
pub proof fn manual_installation(directory: Seq<char>)
    ensures
        manual_text(directory) == "sudo bash "@ + directory + "/install.sh"@,
        INSTALL_TIMEOUT_SECS == 10 * 60,
{
}

/// An installation that runs is waited for until its deadline and then ended;
/// it succeeds exactly if it ended well, and every failure says how to install
/// by hand.
pub proof fn installations_end_by_their_deadline(
    directory: Seq<char>,
    poll: InstallPoll,
    past_deadline: bool,
    step: InstallStep,
)
    requires
        install_judged(directory, poll, past_deadline, step),
    ensures
        step is Wait <==> poll is Running && !past_deadline,
        step is Kill <==> poll is Running && past_deadline,
        (step matches InstallStep::Finish(result) && result is Ok) <==> poll == InstallPoll::Ended(
            true,
        ),
        step matches InstallStep::Kill(text) ==> ("sudo bash "@ + directory
            + "/install.sh"@).is_suffix_of(text@),
        step matches InstallStep::Finish(Err(text)) ==> ("sudo bash "@ + directory
            + "/install.sh"@).is_suffix_of(text@),
{
    let text = match step {
        InstallStep::Kill(text) => text@,
        InstallStep::Finish(Err(text)) => text@,
        _ => manual_text(directory),
    };
    let manual = manual_text(directory);
    assert(text.subrange(text.len() - manual.len(), text.len() as int) =~= manual);
}

} // verus!
