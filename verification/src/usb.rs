//! What is told of the USB devices.

use vstd::prelude::*;
use vstd::string::*;
use vstd::utf8;
use crate::report;
use crate::report::TaskMsg;

verus! {

/// The text that `String::from_utf8_lossy` makes of some bytes.
pub uninterp spec fn lossy_text(bytes: Seq<u8>) -> Seq<char>;

/// The text of `bytes` by `String::from_utf8_lossy`: where they are UTF-8, what
/// they encode; else the same with the parts that are not UTF-8 replaced.
/// How many replacement characters stand for such a part is left unsaid.
#[verifier::external_body]
fn from_utf8_lossy(bytes: &[u8]) -> (r: String)
    ensures
        r@ == lossy_text(bytes@),
        utf8::valid_utf8(bytes@) ==> r@ == utf8::decode_utf8(bytes@),
{
    String::from_utf8_lossy(bytes).into_owned()
}

/// What is sent before the devices are listed.
pub open spec fn opening_msg() -> report::MsgView {
    report::MsgView::Log("枚举USB设备VID/PID："@)
}

/// What is sent before the devices are listed.
pub fn opening() -> (r: TaskMsg)
    ensures
        r@ == opening_msg(),
{
    TaskMsg::Log("枚举USB设备VID/PID：".to_owned())
}

/// What is sent on the listing of the devices: `listing`, or why there is none.
pub open spec fn usb_msgs(listing: Result<Seq<char>, Seq<char>>) -> Seq<report::MsgView> {
    seq![
        report::MsgView::Log(
            match listing {
                Ok(text) => text,
                Err(why) => "读取USB信息失败:"@ + why,
            },
        ),
        report::MsgView::Finished,
    ]
}

/// What is sent on the listing of the devices: `listing`, or why there is none.
pub fn usb_messages(listing: Result<String, String>) -> (r: Vec<TaskMsg>)
    ensures
        report::msg_views(r@) == usb_msgs(
            match listing {
                Ok(text) => Ok(text@),
                Err(why) => Err(why@),
            },
        ),
{
    let line = match listing {
        Ok(text) => text,
        Err(why) => {
            let mut line = "读取USB信息失败:".to_owned();
            line.append(why.as_str());
            line
        },
    };
    let r: Vec<TaskMsg> = vec![TaskMsg::Log(line), TaskMsg::Finished];
    assert(report::msg_views(r@) =~= usb_msgs(
        match listing {
            Ok(text) => Ok(text@),
            Err(why) => Err(why@),
        },
    ));
    r
}

/// What is sent on what the listing command wrote, or on why it could not run.
pub fn usb_report(output: Result<Vec<u8>, String>) -> (r: Vec<TaskMsg>)
    ensures
        report::msg_views(r@) == usb_msgs(
            match output {
                Ok(bytes) => Ok(lossy_text(bytes@)),
                Err(why) => Err(why@),
            },
        ),
        output matches Ok(bytes) ==> utf8::valid_utf8(bytes@) ==> report::msg_views(r@) == usb_msgs(
            Ok(utf8::decode_utf8(bytes@)),
        ),
{
    match output {
        Ok(bytes) => usb_messages(Ok(from_utf8_lossy(bytes.as_slice()))),
        Err(why) => usb_messages(Err(why)),
    }
}

/// The listing of the devices is announced, then the listing or the reason why
/// there is none is logged, and then the task is over.
pub proof fn listing_is_told(text: Seq<char>, why: Seq<char>)
    ensures
        opening_msg() == report::MsgView::Log("枚举USB设备VID/PID："@),
        usb_msgs(Ok(text)) == seq![report::MsgView::Log(text), report::MsgView::Finished],
        usb_msgs(Err(why)) == seq![
            report::MsgView::Log("读取USB信息失败:"@ + why),
            report::MsgView::Finished,
        ],
{
}

} // verus!
