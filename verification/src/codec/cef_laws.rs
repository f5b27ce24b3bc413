//! What holds of the names and escapes of CEF.
use crate::codec::cef::{extension_pairs, full_name, next_key, pairs_from, unescaped, with_part};
use crate::text::{
    find_from, lemma_find_from, occurs_at, replace_from, replace_text, split_from, split_text,
    trim_text,
};
use crate::codec::cef::{extension_from, header_event, header_from, reserved, with_pairs, CefCodec};
use crate::codec::laws::text_survives;
use crate::codec::Codec;
use crate::double::{AnswersV, QueryV};
use crate::event::{field_of, is_plain_name, lemma_fields_stay, EventV};
use crate::json::JsonV;
use crate::moment::Moment;
use crate::text::{is_white, white_end, white_start};
use vstd::prelude::*;
use vstd::utf8::encode_utf8;

verus! {

/// The key whose full name a text is, or the text itself where it is none.
pub open spec fn short_name(name: Seq<char>) -> Seq<char> {
    if name == "deviceAction"@ {
        "act"@
    } else if name == "applicationProtocol"@ {
        "app"@
    } else if name == "deviceCustomIPv6Address1"@ {
        "c6a1"@
    } else if name == "deviceCustomIPv6Address1Label"@ {
        "c6a1Label"@
    } else if name == "deviceCustomFloatingPoint1"@ {
        "cfp1"@
    } else if name == "deviceCustomFloatingPoint1Label"@ {
        "cfp1Label"@
    } else if name == "deviceCustomNumber1"@ {
        "cn1"@
    } else if name == "deviceCustomNumber1Label"@ {
        "cn1Label"@
    } else if name == "deviceCustomNumber2"@ {
        "cn2"@
    } else if name == "deviceCustomNumber2Label"@ {
        "cn2Label"@
    } else if name == "deviceCustomNumber3"@ {
        "cn3"@
    } else if name == "deviceCustomNumber3Label"@ {
        "cn3Label"@
    } else if name == "baseEventCount"@ {
        "cnt"@
    } else if name == "deviceCustomString1"@ {
        "cs1"@
    } else if name == "deviceCustomString1Label"@ {
        "cs1Label"@
    } else if name == "deviceCustomString2"@ {
        "cs2"@
    } else if name == "deviceCustomString2Label"@ {
        "cs2Label"@
    } else if name == "deviceCustomString3"@ {
        "cs3"@
    } else if name == "deviceCustomString3Label"@ {
        "cs3Label"@
    } else if name == "deviceCustomString4"@ {
        "cs4"@
    } else if name == "deviceCustomString4Label"@ {
        "cs4Label"@
    } else if name == "deviceCustomString5"@ {
        "cs5"@
    } else if name == "deviceCustomString5Label"@ {
        "cs5Label"@
    } else if name == "deviceCustomString6"@ {
        "cs6"@
    } else if name == "deviceCustomString6Label"@ {
        "cs6Label"@
    } else if name == "destinationHostName"@ {
        "dhost"@
    } else if name == "destinationMacAddress"@ {
        "dmac"@
    } else if name == "destinationNtDomain"@ {
        "dntdom"@
    } else if name == "destinationProcessId"@ {
        "dpid"@
    } else if name == "destinationUserPrivileges"@ {
        "dpriv"@
    } else if name == "destinationProcessName"@ {
        "dproc"@
    } else if name == "destinationPort"@ {
        "dpt"@
    } else if name == "destinationAddress"@ {
        "dst"@
    } else if name == "destinationUserId"@ {
        "duid"@
    } else if name == "destinationUserName"@ {
        "duser"@
    } else if name == "deviceAddress"@ {
        "dvc"@
    } else if name == "deviceHostName"@ {
        "dvchost"@
    } else if name == "deviceProcessId"@ {
        "dvcpid"@
    } else if name == "endTime"@ {
        "end"@
    } else if name == "fileName"@ {
        "fname"@
    } else if name == "fileSize"@ {
        "fsize"@
    } else if name == "bytesIn"@ {
        "in"@
    } else if name == "message"@ {
        "msg"@
    } else if name == "bytesOut"@ {
        "out"@
    } else if name == "eventOutcome"@ {
        "outcome"@
    } else if name == "transportProtocol"@ {
        "proto"@
    } else if name == "requestUrl"@ {
        "request"@
    } else if name == "deviceReceiptTime"@ {
        "rt"@
    } else if name == "sourceHostName"@ {
        "shost"@
    } else if name == "sourceMacAddress"@ {
        "smac"@
    } else if name == "sourceNtDomain"@ {
        "sntdom"@
    } else if name == "sourceProcessId"@ {
        "spid"@
    } else if name == "sourceUserPrivileges"@ {
        "spriv"@
    } else if name == "sourceProcessName"@ {
        "sproc"@
    } else if name == "sourcePort"@ {
        "spt"@
    } else if name == "sourceAddress"@ {
        "src"@
    } else if name == "startTime"@ {
        "start"@
    } else if name == "sourceUserId"@ {
        "suid"@
    } else if name == "sourceUserName"@ {
        "suser"@
    } else if name == "categoryDeviceType"@ {
        "type"@
    } else {
        name
    }
}

proof fn lemma_full_names_differ()
    ensures
        "deviceCustomNumber1"@ != "applicationProtocol"@,
        "deviceCustomNumber1Label"@ != "deviceCustomIPv6Address1"@,
        "deviceCustomNumber2"@ != "applicationProtocol"@,
        "deviceCustomNumber2"@ != "deviceCustomNumber1"@,
        "deviceCustomNumber2Label"@ != "deviceCustomIPv6Address1"@,
        "deviceCustomNumber2Label"@ != "deviceCustomNumber1Label"@,
        "deviceCustomNumber3"@ != "applicationProtocol"@,
        "deviceCustomNumber3"@ != "deviceCustomNumber1"@,
        "deviceCustomNumber3"@ != "deviceCustomNumber2"@,
        "deviceCustomNumber3Label"@ != "deviceCustomIPv6Address1"@,
        "deviceCustomNumber3Label"@ != "deviceCustomNumber1Label"@,
        "deviceCustomNumber3Label"@ != "deviceCustomNumber2Label"@,
        "deviceCustomString1"@ != "applicationProtocol"@,
        "deviceCustomString1"@ != "deviceCustomNumber1"@,
        "deviceCustomString1"@ != "deviceCustomNumber2"@,
        "deviceCustomString1"@ != "deviceCustomNumber3"@,
        "deviceCustomString1Label"@ != "deviceCustomIPv6Address1"@,
        "deviceCustomString1Label"@ != "deviceCustomNumber1Label"@,
        "deviceCustomString1Label"@ != "deviceCustomNumber2Label"@,
        "deviceCustomString1Label"@ != "deviceCustomNumber3Label"@,
        "deviceCustomString2"@ != "applicationProtocol"@,
        "deviceCustomString2"@ != "deviceCustomNumber1"@,
        "deviceCustomString2"@ != "deviceCustomNumber2"@,
        "deviceCustomString2"@ != "deviceCustomNumber3"@,
        "deviceCustomString2"@ != "deviceCustomString1"@,
        "deviceCustomString2Label"@ != "deviceCustomIPv6Address1"@,
        "deviceCustomString2Label"@ != "deviceCustomNumber1Label"@,
        "deviceCustomString2Label"@ != "deviceCustomNumber2Label"@,
        "deviceCustomString2Label"@ != "deviceCustomNumber3Label"@,
        "deviceCustomString2Label"@ != "deviceCustomString1Label"@,
        "deviceCustomString3"@ != "applicationProtocol"@,
        "deviceCustomString3"@ != "deviceCustomNumber1"@,
        "deviceCustomString3"@ != "deviceCustomNumber2"@,
        "deviceCustomString3"@ != "deviceCustomNumber3"@,
        "deviceCustomString3"@ != "deviceCustomString1"@,
        "deviceCustomString3"@ != "deviceCustomString2"@,
        "deviceCustomString3Label"@ != "deviceCustomIPv6Address1"@,
        "deviceCustomString3Label"@ != "deviceCustomNumber1Label"@,
        "deviceCustomString3Label"@ != "deviceCustomNumber2Label"@,
        "deviceCustomString3Label"@ != "deviceCustomNumber3Label"@,
        "deviceCustomString3Label"@ != "deviceCustomString1Label"@,
        "deviceCustomString3Label"@ != "deviceCustomString2Label"@,
        "deviceCustomString4"@ != "applicationProtocol"@,
        "deviceCustomString4"@ != "deviceCustomNumber1"@,
        "deviceCustomString4"@ != "deviceCustomNumber2"@,
        "deviceCustomString4"@ != "deviceCustomNumber3"@,
        "deviceCustomString4"@ != "deviceCustomString1"@,
        "deviceCustomString4"@ != "deviceCustomString2"@,
        "deviceCustomString4"@ != "deviceCustomString3"@,
        "deviceCustomString4Label"@ != "deviceCustomIPv6Address1"@,
        "deviceCustomString4Label"@ != "deviceCustomNumber1Label"@,
        "deviceCustomString4Label"@ != "deviceCustomNumber2Label"@,
        "deviceCustomString4Label"@ != "deviceCustomNumber3Label"@,
        "deviceCustomString4Label"@ != "deviceCustomString1Label"@,
        "deviceCustomString4Label"@ != "deviceCustomString2Label"@,
        "deviceCustomString4Label"@ != "deviceCustomString3Label"@,
        "deviceCustomString5"@ != "applicationProtocol"@,
        "deviceCustomString5"@ != "deviceCustomNumber1"@,
        "deviceCustomString5"@ != "deviceCustomNumber2"@,
        "deviceCustomString5"@ != "deviceCustomNumber3"@,
        "deviceCustomString5"@ != "deviceCustomString1"@,
        "deviceCustomString5"@ != "deviceCustomString2"@,
        "deviceCustomString5"@ != "deviceCustomString3"@,
        "deviceCustomString5"@ != "deviceCustomString4"@,
        "deviceCustomString5Label"@ != "deviceCustomIPv6Address1"@,
        "deviceCustomString5Label"@ != "deviceCustomNumber1Label"@,
        "deviceCustomString5Label"@ != "deviceCustomNumber2Label"@,
        "deviceCustomString5Label"@ != "deviceCustomNumber3Label"@,
        "deviceCustomString5Label"@ != "deviceCustomString1Label"@,
        "deviceCustomString5Label"@ != "deviceCustomString2Label"@,
        "deviceCustomString5Label"@ != "deviceCustomString3Label"@,
        "deviceCustomString5Label"@ != "deviceCustomString4Label"@,
        "deviceCustomString6"@ != "applicationProtocol"@,
        "deviceCustomString6"@ != "deviceCustomNumber1"@,
        "deviceCustomString6"@ != "deviceCustomNumber2"@,
        "deviceCustomString6"@ != "deviceCustomNumber3"@,
        "deviceCustomString6"@ != "deviceCustomString1"@,
        "deviceCustomString6"@ != "deviceCustomString2"@,
        "deviceCustomString6"@ != "deviceCustomString3"@,
        "deviceCustomString6"@ != "deviceCustomString4"@,
        "deviceCustomString6"@ != "deviceCustomString5"@,
        "deviceCustomString6Label"@ != "deviceCustomIPv6Address1"@,
        "deviceCustomString6Label"@ != "deviceCustomNumber1Label"@,
        "deviceCustomString6Label"@ != "deviceCustomNumber2Label"@,
        "deviceCustomString6Label"@ != "deviceCustomNumber3Label"@,
        "deviceCustomString6Label"@ != "deviceCustomString1Label"@,
        "deviceCustomString6Label"@ != "deviceCustomString2Label"@,
        "deviceCustomString6Label"@ != "deviceCustomString3Label"@,
        "deviceCustomString6Label"@ != "deviceCustomString4Label"@,
        "deviceCustomString6Label"@ != "deviceCustomString5Label"@,
        "destinationHostName"@ != "applicationProtocol"@,
        "destinationHostName"@ != "deviceCustomNumber1"@,
        "destinationHostName"@ != "deviceCustomNumber2"@,
        "destinationHostName"@ != "deviceCustomNumber3"@,
        "destinationHostName"@ != "deviceCustomString1"@,
        "destinationHostName"@ != "deviceCustomString2"@,
        "destinationHostName"@ != "deviceCustomString3"@,
        "destinationHostName"@ != "deviceCustomString4"@,
        "destinationHostName"@ != "deviceCustomString5"@,
        "destinationHostName"@ != "deviceCustomString6"@,
        "destinationNtDomain"@ != "applicationProtocol"@,
        "destinationNtDomain"@ != "deviceCustomNumber1"@,
        "destinationNtDomain"@ != "deviceCustomNumber2"@,
        "destinationNtDomain"@ != "deviceCustomNumber3"@,
        "destinationNtDomain"@ != "deviceCustomString1"@,
        "destinationNtDomain"@ != "deviceCustomString2"@,
        "destinationNtDomain"@ != "deviceCustomString3"@,
        "destinationNtDomain"@ != "deviceCustomString4"@,
        "destinationNtDomain"@ != "deviceCustomString5"@,
        "destinationNtDomain"@ != "deviceCustomString6"@,
        "destinationNtDomain"@ != "destinationHostName"@,
        "destinationUserName"@ != "applicationProtocol"@,
        "destinationUserName"@ != "deviceCustomNumber1"@,
        "destinationUserName"@ != "deviceCustomNumber2"@,
        "destinationUserName"@ != "deviceCustomNumber3"@,
        "destinationUserName"@ != "deviceCustomString1"@,
        "destinationUserName"@ != "deviceCustomString2"@,
        "destinationUserName"@ != "deviceCustomString3"@,
        "destinationUserName"@ != "deviceCustomString4"@,
        "destinationUserName"@ != "deviceCustomString5"@,
        "destinationUserName"@ != "deviceCustomString6"@,
        "destinationUserName"@ != "destinationHostName"@,
        "destinationUserName"@ != "destinationNtDomain"@,
        "deviceHostName"@ != "baseEventCount"@,
        "deviceProcessId"@ != "destinationPort"@,
        "fileSize"@ != "fileName"@,
        "bytesIn"@ != "endTime"@,
        "message"@ != "endTime"@,
        "message"@ != "bytesIn"@,
        "bytesOut"@ != "fileName"@,
        "bytesOut"@ != "fileSize"@,
        "eventOutcome"@ != "deviceAction"@,
        "transportProtocol"@ != "destinationUserId"@,
        "deviceReceiptTime"@ != "destinationUserId"@,
        "deviceReceiptTime"@ != "transportProtocol"@,
        "sourceHostName"@ != "baseEventCount"@,
        "sourceHostName"@ != "deviceHostName"@,
        "sourceNtDomain"@ != "baseEventCount"@,
        "sourceNtDomain"@ != "deviceHostName"@,
        "sourceNtDomain"@ != "sourceHostName"@,
        "sourceProcessId"@ != "destinationPort"@,
        "sourceProcessId"@ != "deviceProcessId"@,
        "sourceUserPrivileges"@ != "destinationProcessId"@,
        "sourceProcessName"@ != "destinationUserId"@,
        "sourceProcessName"@ != "transportProtocol"@,
        "sourceProcessName"@ != "deviceReceiptTime"@,
        "sourcePort"@ != "requestUrl"@,
        "sourceAddress"@ != "deviceAddress"@,
        "sourceUserId"@ != "deviceAction"@,
        "sourceUserId"@ != "eventOutcome"@,
        "sourceUserName"@ != "baseEventCount"@,
        "sourceUserName"@ != "deviceHostName"@,
        "sourceUserName"@ != "sourceHostName"@,
        "sourceUserName"@ != "sourceNtDomain"@,
        "categoryDeviceType"@ != "destinationAddress"@,
        "deviceAction"@.len() == 12,
        "applicationProtocol"@.len() == 19,
        "deviceCustomIPv6Address1"@.len() == 24,
        "deviceCustomIPv6Address1Label"@.len() == 29,
        "deviceCustomFloatingPoint1"@.len() == 26,
        "deviceCustomFloatingPoint1Label"@.len() == 31,
        "deviceCustomNumber1"@.len() == 19,
        "deviceCustomNumber1Label"@.len() == 24,
        "deviceCustomNumber2"@.len() == 19,
        "deviceCustomNumber2Label"@.len() == 24,
        "deviceCustomNumber3"@.len() == 19,
        "deviceCustomNumber3Label"@.len() == 24,
        "baseEventCount"@.len() == 14,
        "deviceCustomString1"@.len() == 19,
        "deviceCustomString1Label"@.len() == 24,
        "deviceCustomString2"@.len() == 19,
        "deviceCustomString2Label"@.len() == 24,
        "deviceCustomString3"@.len() == 19,
        "deviceCustomString3Label"@.len() == 24,
        "deviceCustomString4"@.len() == 19,
        "deviceCustomString4Label"@.len() == 24,
        "deviceCustomString5"@.len() == 19,
        "deviceCustomString5Label"@.len() == 24,
        "deviceCustomString6"@.len() == 19,
        "deviceCustomString6Label"@.len() == 24,
        "destinationHostName"@.len() == 19,
        "destinationMacAddress"@.len() == 21,
        "destinationNtDomain"@.len() == 19,
        "destinationProcessId"@.len() == 20,
        "destinationUserPrivileges"@.len() == 25,
        "destinationProcessName"@.len() == 22,
        "destinationPort"@.len() == 15,
        "destinationAddress"@.len() == 18,
        "destinationUserId"@.len() == 17,
        "destinationUserName"@.len() == 19,
        "deviceAddress"@.len() == 13,
        "deviceHostName"@.len() == 14,
        "deviceProcessId"@.len() == 15,
        "endTime"@.len() == 7,
        "fileName"@.len() == 8,
        "fileSize"@.len() == 8,
        "bytesIn"@.len() == 7,
        "message"@.len() == 7,
        "bytesOut"@.len() == 8,
        "eventOutcome"@.len() == 12,
        "transportProtocol"@.len() == 17,
        "requestUrl"@.len() == 10,
        "deviceReceiptTime"@.len() == 17,
        "sourceHostName"@.len() == 14,
        "sourceMacAddress"@.len() == 16,
        "sourceNtDomain"@.len() == 14,
        "sourceProcessId"@.len() == 15,
        "sourceUserPrivileges"@.len() == 20,
        "sourceProcessName"@.len() == 17,
        "sourcePort"@.len() == 10,
        "sourceAddress"@.len() == 13,
        "startTime"@.len() == 9,
        "sourceUserId"@.len() == 12,
        "sourceUserName"@.len() == 14,
        "categoryDeviceType"@.len() == 18,
{
    reveal_strlit("deviceAction");
    reveal_strlit("applicationProtocol");
    reveal_strlit("deviceCustomIPv6Address1");
    reveal_strlit("deviceCustomIPv6Address1Label");
    reveal_strlit("deviceCustomFloatingPoint1");
    reveal_strlit("deviceCustomFloatingPoint1Label");
    reveal_strlit("deviceCustomNumber1");
    reveal_strlit("deviceCustomNumber1Label");
    reveal_strlit("deviceCustomNumber2");
    reveal_strlit("deviceCustomNumber2Label");
    reveal_strlit("deviceCustomNumber3");
    reveal_strlit("deviceCustomNumber3Label");
    reveal_strlit("baseEventCount");
    reveal_strlit("deviceCustomString1");
    reveal_strlit("deviceCustomString1Label");
    reveal_strlit("deviceCustomString2");
    reveal_strlit("deviceCustomString2Label");
    reveal_strlit("deviceCustomString3");
    reveal_strlit("deviceCustomString3Label");
    reveal_strlit("deviceCustomString4");
    reveal_strlit("deviceCustomString4Label");
    reveal_strlit("deviceCustomString5");
    reveal_strlit("deviceCustomString5Label");
    reveal_strlit("deviceCustomString6");
    reveal_strlit("deviceCustomString6Label");
    reveal_strlit("destinationHostName");
    reveal_strlit("destinationMacAddress");
    reveal_strlit("destinationNtDomain");
    reveal_strlit("destinationProcessId");
    reveal_strlit("destinationUserPrivileges");
    reveal_strlit("destinationProcessName");
    reveal_strlit("destinationPort");
    reveal_strlit("destinationAddress");
    reveal_strlit("destinationUserId");
    reveal_strlit("destinationUserName");
    reveal_strlit("deviceAddress");
    reveal_strlit("deviceHostName");
    reveal_strlit("deviceProcessId");
    reveal_strlit("endTime");
    reveal_strlit("fileName");
    reveal_strlit("fileSize");
    reveal_strlit("bytesIn");
    reveal_strlit("message");
    reveal_strlit("bytesOut");
    reveal_strlit("eventOutcome");
    reveal_strlit("transportProtocol");
    reveal_strlit("requestUrl");
    reveal_strlit("deviceReceiptTime");
    reveal_strlit("sourceHostName");
    reveal_strlit("sourceMacAddress");
    reveal_strlit("sourceNtDomain");
    reveal_strlit("sourceProcessId");
    reveal_strlit("sourceUserPrivileges");
    reveal_strlit("sourceProcessName");
    reveal_strlit("sourcePort");
    reveal_strlit("sourceAddress");
    reveal_strlit("startTime");
    reveal_strlit("sourceUserId");
    reveal_strlit("sourceUserName");
    reveal_strlit("categoryDeviceType");
    assert("deviceCustomNumber1"@[0] != "applicationProtocol"@[0]);
    assert("deviceCustomNumber1Label"@[12] != "deviceCustomIPv6Address1"@[12]);
    assert("deviceCustomNumber2"@[0] != "applicationProtocol"@[0]);
    assert("deviceCustomNumber2"@[18] != "deviceCustomNumber1"@[18]);
    assert("deviceCustomNumber2Label"@[12] != "deviceCustomIPv6Address1"@[12]);
    assert("deviceCustomNumber2Label"@[18] != "deviceCustomNumber1Label"@[18]);
    assert("deviceCustomNumber3"@[0] != "applicationProtocol"@[0]);
    assert("deviceCustomNumber3"@[18] != "deviceCustomNumber1"@[18]);
    assert("deviceCustomNumber3"@[18] != "deviceCustomNumber2"@[18]);
    assert("deviceCustomNumber3Label"@[12] != "deviceCustomIPv6Address1"@[12]);
    assert("deviceCustomNumber3Label"@[18] != "deviceCustomNumber1Label"@[18]);
    assert("deviceCustomNumber3Label"@[18] != "deviceCustomNumber2Label"@[18]);
    assert("deviceCustomString1"@[0] != "applicationProtocol"@[0]);
    assert("deviceCustomString1"@[12] != "deviceCustomNumber1"@[12]);
    assert("deviceCustomString1"@[12] != "deviceCustomNumber2"@[12]);
    assert("deviceCustomString1"@[12] != "deviceCustomNumber3"@[12]);
    assert("deviceCustomString1Label"@[12] != "deviceCustomIPv6Address1"@[12]);
    assert("deviceCustomString1Label"@[12] != "deviceCustomNumber1Label"@[12]);
    assert("deviceCustomString1Label"@[12] != "deviceCustomNumber2Label"@[12]);
    assert("deviceCustomString1Label"@[12] != "deviceCustomNumber3Label"@[12]);
    assert("deviceCustomString2"@[0] != "applicationProtocol"@[0]);
    assert("deviceCustomString2"@[12] != "deviceCustomNumber1"@[12]);
    assert("deviceCustomString2"@[12] != "deviceCustomNumber2"@[12]);
    assert("deviceCustomString2"@[12] != "deviceCustomNumber3"@[12]);
    assert("deviceCustomString2"@[18] != "deviceCustomString1"@[18]);
    assert("deviceCustomString2Label"@[12] != "deviceCustomIPv6Address1"@[12]);
    assert("deviceCustomString2Label"@[12] != "deviceCustomNumber1Label"@[12]);
    assert("deviceCustomString2Label"@[12] != "deviceCustomNumber2Label"@[12]);
    assert("deviceCustomString2Label"@[12] != "deviceCustomNumber3Label"@[12]);
    assert("deviceCustomString2Label"@[18] != "deviceCustomString1Label"@[18]);
    assert("deviceCustomString3"@[0] != "applicationProtocol"@[0]);
    assert("deviceCustomString3"@[12] != "deviceCustomNumber1"@[12]);
    assert("deviceCustomString3"@[12] != "deviceCustomNumber2"@[12]);
    assert("deviceCustomString3"@[12] != "deviceCustomNumber3"@[12]);
    assert("deviceCustomString3"@[18] != "deviceCustomString1"@[18]);
    assert("deviceCustomString3"@[18] != "deviceCustomString2"@[18]);
    assert("deviceCustomString3Label"@[12] != "deviceCustomIPv6Address1"@[12]);
    assert("deviceCustomString3Label"@[12] != "deviceCustomNumber1Label"@[12]);
    assert("deviceCustomString3Label"@[12] != "deviceCustomNumber2Label"@[12]);
    assert("deviceCustomString3Label"@[12] != "deviceCustomNumber3Label"@[12]);
    assert("deviceCustomString3Label"@[18] != "deviceCustomString1Label"@[18]);
    assert("deviceCustomString3Label"@[18] != "deviceCustomString2Label"@[18]);
    assert("deviceCustomString4"@[0] != "applicationProtocol"@[0]);
    assert("deviceCustomString4"@[12] != "deviceCustomNumber1"@[12]);
    assert("deviceCustomString4"@[12] != "deviceCustomNumber2"@[12]);
    assert("deviceCustomString4"@[12] != "deviceCustomNumber3"@[12]);
    assert("deviceCustomString4"@[18] != "deviceCustomString1"@[18]);
    assert("deviceCustomString4"@[18] != "deviceCustomString2"@[18]);
    assert("deviceCustomString4"@[18] != "deviceCustomString3"@[18]);
    assert("deviceCustomString4Label"@[12] != "deviceCustomIPv6Address1"@[12]);
    assert("deviceCustomString4Label"@[12] != "deviceCustomNumber1Label"@[12]);
    assert("deviceCustomString4Label"@[12] != "deviceCustomNumber2Label"@[12]);
    assert("deviceCustomString4Label"@[12] != "deviceCustomNumber3Label"@[12]);
    assert("deviceCustomString4Label"@[18] != "deviceCustomString1Label"@[18]);
    assert("deviceCustomString4Label"@[18] != "deviceCustomString2Label"@[18]);
    assert("deviceCustomString4Label"@[18] != "deviceCustomString3Label"@[18]);
    assert("deviceCustomString5"@[0] != "applicationProtocol"@[0]);
    assert("deviceCustomString5"@[12] != "deviceCustomNumber1"@[12]);
    assert("deviceCustomString5"@[12] != "deviceCustomNumber2"@[12]);
    assert("deviceCustomString5"@[12] != "deviceCustomNumber3"@[12]);
    assert("deviceCustomString5"@[18] != "deviceCustomString1"@[18]);
    assert("deviceCustomString5"@[18] != "deviceCustomString2"@[18]);
    assert("deviceCustomString5"@[18] != "deviceCustomString3"@[18]);
    assert("deviceCustomString5"@[18] != "deviceCustomString4"@[18]);
    assert("deviceCustomString5Label"@[12] != "deviceCustomIPv6Address1"@[12]);
    assert("deviceCustomString5Label"@[12] != "deviceCustomNumber1Label"@[12]);
    assert("deviceCustomString5Label"@[12] != "deviceCustomNumber2Label"@[12]);
    assert("deviceCustomString5Label"@[12] != "deviceCustomNumber3Label"@[12]);
    assert("deviceCustomString5Label"@[18] != "deviceCustomString1Label"@[18]);
    assert("deviceCustomString5Label"@[18] != "deviceCustomString2Label"@[18]);
    assert("deviceCustomString5Label"@[18] != "deviceCustomString3Label"@[18]);
    assert("deviceCustomString5Label"@[18] != "deviceCustomString4Label"@[18]);
    assert("deviceCustomString6"@[0] != "applicationProtocol"@[0]);
    assert("deviceCustomString6"@[12] != "deviceCustomNumber1"@[12]);
    assert("deviceCustomString6"@[12] != "deviceCustomNumber2"@[12]);
    assert("deviceCustomString6"@[12] != "deviceCustomNumber3"@[12]);
    assert("deviceCustomString6"@[18] != "deviceCustomString1"@[18]);
    assert("deviceCustomString6"@[18] != "deviceCustomString2"@[18]);
    assert("deviceCustomString6"@[18] != "deviceCustomString3"@[18]);
    assert("deviceCustomString6"@[18] != "deviceCustomString4"@[18]);
    assert("deviceCustomString6"@[18] != "deviceCustomString5"@[18]);
    assert("deviceCustomString6Label"@[12] != "deviceCustomIPv6Address1"@[12]);
    assert("deviceCustomString6Label"@[12] != "deviceCustomNumber1Label"@[12]);
    assert("deviceCustomString6Label"@[12] != "deviceCustomNumber2Label"@[12]);
    assert("deviceCustomString6Label"@[12] != "deviceCustomNumber3Label"@[12]);
    assert("deviceCustomString6Label"@[18] != "deviceCustomString1Label"@[18]);
    assert("deviceCustomString6Label"@[18] != "deviceCustomString2Label"@[18]);
    assert("deviceCustomString6Label"@[18] != "deviceCustomString3Label"@[18]);
    assert("deviceCustomString6Label"@[18] != "deviceCustomString4Label"@[18]);
    assert("deviceCustomString6Label"@[18] != "deviceCustomString5Label"@[18]);
    assert("destinationHostName"@[0] != "applicationProtocol"@[0]);
    assert("destinationHostName"@[2] != "deviceCustomNumber1"@[2]);
    assert("destinationHostName"@[2] != "deviceCustomNumber2"@[2]);
    assert("destinationHostName"@[2] != "deviceCustomNumber3"@[2]);
    assert("destinationHostName"@[2] != "deviceCustomString1"@[2]);
    assert("destinationHostName"@[2] != "deviceCustomString2"@[2]);
    assert("destinationHostName"@[2] != "deviceCustomString3"@[2]);
    assert("destinationHostName"@[2] != "deviceCustomString4"@[2]);
    assert("destinationHostName"@[2] != "deviceCustomString5"@[2]);
    assert("destinationHostName"@[2] != "deviceCustomString6"@[2]);
    assert("destinationNtDomain"@[0] != "applicationProtocol"@[0]);
    assert("destinationNtDomain"@[2] != "deviceCustomNumber1"@[2]);
    assert("destinationNtDomain"@[2] != "deviceCustomNumber2"@[2]);
    assert("destinationNtDomain"@[2] != "deviceCustomNumber3"@[2]);
    assert("destinationNtDomain"@[2] != "deviceCustomString1"@[2]);
    assert("destinationNtDomain"@[2] != "deviceCustomString2"@[2]);
    assert("destinationNtDomain"@[2] != "deviceCustomString3"@[2]);
    assert("destinationNtDomain"@[2] != "deviceCustomString4"@[2]);
    assert("destinationNtDomain"@[2] != "deviceCustomString5"@[2]);
    assert("destinationNtDomain"@[2] != "deviceCustomString6"@[2]);
    assert("destinationNtDomain"@[11] != "destinationHostName"@[11]);
    assert("destinationUserName"@[0] != "applicationProtocol"@[0]);
    assert("destinationUserName"@[2] != "deviceCustomNumber1"@[2]);
    assert("destinationUserName"@[2] != "deviceCustomNumber2"@[2]);
    assert("destinationUserName"@[2] != "deviceCustomNumber3"@[2]);
    assert("destinationUserName"@[2] != "deviceCustomString1"@[2]);
    assert("destinationUserName"@[2] != "deviceCustomString2"@[2]);
    assert("destinationUserName"@[2] != "deviceCustomString3"@[2]);
    assert("destinationUserName"@[2] != "deviceCustomString4"@[2]);
    assert("destinationUserName"@[2] != "deviceCustomString5"@[2]);
    assert("destinationUserName"@[2] != "deviceCustomString6"@[2]);
    assert("destinationUserName"@[11] != "destinationHostName"@[11]);
    assert("destinationUserName"@[11] != "destinationNtDomain"@[11]);
    assert("deviceHostName"@[0] != "baseEventCount"@[0]);
    assert("deviceProcessId"@[2] != "destinationPort"@[2]);
    assert("fileSize"@[4] != "fileName"@[4]);
    assert("bytesIn"@[0] != "endTime"@[0]);
    assert("message"@[0] != "endTime"@[0]);
    assert("message"@[0] != "bytesIn"@[0]);
    assert("bytesOut"@[0] != "fileName"@[0]);
    assert("bytesOut"@[0] != "fileSize"@[0]);
    assert("eventOutcome"@[0] != "deviceAction"@[0]);
    assert("transportProtocol"@[0] != "destinationUserId"@[0]);
    assert("deviceReceiptTime"@[2] != "destinationUserId"@[2]);
    assert("deviceReceiptTime"@[0] != "transportProtocol"@[0]);
    assert("sourceHostName"@[0] != "baseEventCount"@[0]);
    assert("sourceHostName"@[0] != "deviceHostName"@[0]);
    assert("sourceNtDomain"@[0] != "baseEventCount"@[0]);
    assert("sourceNtDomain"@[0] != "deviceHostName"@[0]);
    assert("sourceNtDomain"@[6] != "sourceHostName"@[6]);
    assert("sourceProcessId"@[0] != "destinationPort"@[0]);
    assert("sourceProcessId"@[0] != "deviceProcessId"@[0]);
    assert("sourceUserPrivileges"@[0] != "destinationProcessId"@[0]);
    assert("sourceProcessName"@[0] != "destinationUserId"@[0]);
    assert("sourceProcessName"@[0] != "transportProtocol"@[0]);
    assert("sourceProcessName"@[0] != "deviceReceiptTime"@[0]);
    assert("sourcePort"@[0] != "requestUrl"@[0]);
    assert("sourceAddress"@[0] != "deviceAddress"@[0]);
    assert("sourceUserId"@[0] != "deviceAction"@[0]);
    assert("sourceUserId"@[0] != "eventOutcome"@[0]);
    assert("sourceUserName"@[0] != "baseEventCount"@[0]);
    assert("sourceUserName"@[0] != "deviceHostName"@[0]);
    assert("sourceUserName"@[6] != "sourceHostName"@[6]);
    assert("sourceUserName"@[6] != "sourceNtDomain"@[6]);
    assert("categoryDeviceType"@[0] != "destinationAddress"@[0]);
}

proof fn lemma_full_names_are_no_keys()
    ensures
        "endTime"@ != "dvchost"@,
        "endTime"@ != "outcome"@,
        "endTime"@ != "request"@,
        "fileName"@ != "cn1Label"@,
        "fileName"@ != "cn2Label"@,
        "fileName"@ != "cn3Label"@,
        "fileName"@ != "cs1Label"@,
        "fileName"@ != "cs2Label"@,
        "fileName"@ != "cs3Label"@,
        "fileName"@ != "cs4Label"@,
        "fileName"@ != "cs5Label"@,
        "fileName"@ != "cs6Label"@,
        "fileSize"@ != "cn1Label"@,
        "fileSize"@ != "cn2Label"@,
        "fileSize"@ != "cn3Label"@,
        "fileSize"@ != "cs1Label"@,
        "fileSize"@ != "cs2Label"@,
        "fileSize"@ != "cs3Label"@,
        "fileSize"@ != "cs4Label"@,
        "fileSize"@ != "cs5Label"@,
        "fileSize"@ != "cs6Label"@,
        "bytesIn"@ != "dvchost"@,
        "bytesIn"@ != "outcome"@,
        "bytesIn"@ != "request"@,
        "message"@ != "dvchost"@,
        "message"@ != "outcome"@,
        "message"@ != "request"@,
        "bytesOut"@ != "cn1Label"@,
        "bytesOut"@ != "cn2Label"@,
        "bytesOut"@ != "cn3Label"@,
        "bytesOut"@ != "cs1Label"@,
        "bytesOut"@ != "cs2Label"@,
        "bytesOut"@ != "cs3Label"@,
        "bytesOut"@ != "cs4Label"@,
        "bytesOut"@ != "cs5Label"@,
        "bytesOut"@ != "cs6Label"@,
        "startTime"@ != "c6a1Label"@,
        "startTime"@ != "cfp1Label"@,
        "act"@.len() == 3,
        "app"@.len() == 3,
        "c6a1"@.len() == 4,
        "c6a1Label"@.len() == 9,
        "cfp1"@.len() == 4,
        "cfp1Label"@.len() == 9,
        "cn1"@.len() == 3,
        "cn1Label"@.len() == 8,
        "cn2"@.len() == 3,
        "cn2Label"@.len() == 8,
        "cn3"@.len() == 3,
        "cn3Label"@.len() == 8,
        "cnt"@.len() == 3,
        "cs1"@.len() == 3,
        "cs1Label"@.len() == 8,
        "cs2"@.len() == 3,
        "cs2Label"@.len() == 8,
        "cs3"@.len() == 3,
        "cs3Label"@.len() == 8,
        "cs4"@.len() == 3,
        "cs4Label"@.len() == 8,
        "cs5"@.len() == 3,
        "cs5Label"@.len() == 8,
        "cs6"@.len() == 3,
        "cs6Label"@.len() == 8,
        "dhost"@.len() == 5,
        "dmac"@.len() == 4,
        "dntdom"@.len() == 6,
        "dpid"@.len() == 4,
        "dpriv"@.len() == 5,
        "dproc"@.len() == 5,
        "dpt"@.len() == 3,
        "dst"@.len() == 3,
        "duid"@.len() == 4,
        "duser"@.len() == 5,
        "dvc"@.len() == 3,
        "dvchost"@.len() == 7,
        "dvcpid"@.len() == 6,
        "end"@.len() == 3,
        "fname"@.len() == 5,
        "fsize"@.len() == 5,
        "in"@.len() == 2,
        "msg"@.len() == 3,
        "out"@.len() == 3,
        "outcome"@.len() == 7,
        "proto"@.len() == 5,
        "request"@.len() == 7,
        "rt"@.len() == 2,
        "shost"@.len() == 5,
        "smac"@.len() == 4,
        "sntdom"@.len() == 6,
        "spid"@.len() == 4,
        "spriv"@.len() == 5,
        "sproc"@.len() == 5,
        "spt"@.len() == 3,
        "src"@.len() == 3,
        "start"@.len() == 5,
        "suid"@.len() == 4,
        "suser"@.len() == 5,
        "type"@.len() == 4,
{
    reveal_strlit("act");
    reveal_strlit("app");
    reveal_strlit("c6a1");
    reveal_strlit("c6a1Label");
    reveal_strlit("cfp1");
    reveal_strlit("cfp1Label");
    reveal_strlit("cn1");
    reveal_strlit("cn1Label");
    reveal_strlit("cn2");
    reveal_strlit("cn2Label");
    reveal_strlit("cn3");
    reveal_strlit("cn3Label");
    reveal_strlit("cnt");
    reveal_strlit("cs1");
    reveal_strlit("cs1Label");
    reveal_strlit("cs2");
    reveal_strlit("cs2Label");
    reveal_strlit("cs3");
    reveal_strlit("cs3Label");
    reveal_strlit("cs4");
    reveal_strlit("cs4Label");
    reveal_strlit("cs5");
    reveal_strlit("cs5Label");
    reveal_strlit("cs6");
    reveal_strlit("cs6Label");
    reveal_strlit("dhost");
    reveal_strlit("dmac");
    reveal_strlit("dntdom");
    reveal_strlit("dpid");
    reveal_strlit("dpriv");
    reveal_strlit("dproc");
    reveal_strlit("dpt");
    reveal_strlit("dst");
    reveal_strlit("duid");
    reveal_strlit("duser");
    reveal_strlit("dvc");
    reveal_strlit("dvchost");
    reveal_strlit("dvcpid");
    reveal_strlit("end");
    reveal_strlit("fname");
    reveal_strlit("fsize");
    reveal_strlit("in");
    reveal_strlit("msg");
    reveal_strlit("out");
    reveal_strlit("outcome");
    reveal_strlit("proto");
    reveal_strlit("request");
    reveal_strlit("rt");
    reveal_strlit("shost");
    reveal_strlit("smac");
    reveal_strlit("sntdom");
    reveal_strlit("spid");
    reveal_strlit("spriv");
    reveal_strlit("sproc");
    reveal_strlit("spt");
    reveal_strlit("src");
    reveal_strlit("start");
    reveal_strlit("suid");
    reveal_strlit("suser");
    reveal_strlit("type");
    reveal_strlit("bytesIn");
    reveal_strlit("bytesOut");
    reveal_strlit("endTime");
    reveal_strlit("fileName");
    reveal_strlit("fileSize");
    reveal_strlit("message");
    reveal_strlit("startTime");
    assert("endTime"@[0] != "dvchost"@[0]);
    assert("endTime"@[0] != "outcome"@[0]);
    assert("endTime"@[0] != "request"@[0]);
    assert("fileName"@[0] != "cn1Label"@[0]);
    assert("fileName"@[0] != "cn2Label"@[0]);
    assert("fileName"@[0] != "cn3Label"@[0]);
    assert("fileName"@[0] != "cs1Label"@[0]);
    assert("fileName"@[0] != "cs2Label"@[0]);
    assert("fileName"@[0] != "cs3Label"@[0]);
    assert("fileName"@[0] != "cs4Label"@[0]);
    assert("fileName"@[0] != "cs5Label"@[0]);
    assert("fileName"@[0] != "cs6Label"@[0]);
    assert("fileSize"@[0] != "cn1Label"@[0]);
    assert("fileSize"@[0] != "cn2Label"@[0]);
    assert("fileSize"@[0] != "cn3Label"@[0]);
    assert("fileSize"@[0] != "cs1Label"@[0]);
    assert("fileSize"@[0] != "cs2Label"@[0]);
    assert("fileSize"@[0] != "cs3Label"@[0]);
    assert("fileSize"@[0] != "cs4Label"@[0]);
    assert("fileSize"@[0] != "cs5Label"@[0]);
    assert("fileSize"@[0] != "cs6Label"@[0]);
    assert("bytesIn"@[0] != "dvchost"@[0]);
    assert("bytesIn"@[0] != "outcome"@[0]);
    assert("bytesIn"@[0] != "request"@[0]);
    assert("message"@[0] != "dvchost"@[0]);
    assert("message"@[0] != "outcome"@[0]);
    assert("message"@[0] != "request"@[0]);
    assert("bytesOut"@[0] != "cn1Label"@[0]);
    assert("bytesOut"@[0] != "cn2Label"@[0]);
    assert("bytesOut"@[0] != "cn3Label"@[0]);
    assert("bytesOut"@[0] != "cs1Label"@[0]);
    assert("bytesOut"@[0] != "cs2Label"@[0]);
    assert("bytesOut"@[0] != "cs3Label"@[0]);
    assert("bytesOut"@[0] != "cs4Label"@[0]);
    assert("bytesOut"@[0] != "cs5Label"@[0]);
    assert("bytesOut"@[0] != "cs6Label"@[0]);
    assert("startTime"@[0] != "c6a1Label"@[0]);
    assert("startTime"@[0] != "cfp1Label"@[0]);
}

/// A full name stands for itself.
#[verifier::spinoff_prover]
pub proof fn full_names_stay(key: Seq<char>)
    ensures
        full_name(full_name(key)) == full_name(key),
{
    lemma_full_names_differ();
    lemma_full_names_are_no_keys();
}

#[verifier::spinoff_prover]
proof fn lemma_short_name(key: Seq<char>)
    requires
        full_name(key) != key,
    ensures
        short_name(full_name(key)) == key,
{
    lemma_full_names_differ();
}

/// No two keys that have a full name of their own share it.
pub proof fn keys_differ_in_full_names(a: Seq<char>, b: Seq<char>)
    requires
        full_name(a) != a,
        full_name(b) != b,
        a != b,
    ensures
        full_name(a) != full_name(b),
{
    lemma_short_name(a);
    lemma_short_name(b);
}

/// The text with every backslash doubled and a backslash before every bar.
#[verifier::opaque]
pub open spec fn escaped(s: Seq<char>) -> Seq<char> {
    replace_text(replace_text(s, "\\"@, "\\\\"@), "|"@, "\\|"@)
}

/// The text from `i` on with every backslash doubled.
spec fn doubled(s: Seq<char>, i: int) -> Seq<char>
    decreases s.len() - i,
{
    if i < 0 || i >= s.len() {
        Seq::empty()
    } else if s[i] == '\\' {
        seq!['\\', '\\'] + doubled(s, i + 1)
    } else {
        seq![s[i]] + doubled(s, i + 1)
    }
}

/// The text from `i` on with every backslash and every bar escaped.
spec fn guarded(s: Seq<char>, i: int) -> Seq<char>
    decreases s.len() - i,
{
    if i < 0 || i >= s.len() {
        Seq::empty()
    } else if s[i] == '\\' {
        seq!['\\', '\\'] + guarded(s, i + 1)
    } else if s[i] == '|' {
        seq!['\\', '|'] + guarded(s, i + 1)
    } else {
        seq![s[i]] + guarded(s, i + 1)
    }
}

/// A replacement takes an occurrence at `i`, or passes over the character there.
proof fn lemma_replace_step(
    s: Seq<char>,
    p: Seq<char>,
    to: Seq<char>,
    i: int,
    acc: Seq<char>,
)
    requires
        0 <= i <= s.len(),
        p.len() > 0,
    ensures
        replace_from(s, p, to, i, i, acc) == (if occurs_at(s, p, i) {
            replace_from(s, p, to, i + p.len(), i + p.len(), acc + to)
        } else if i < s.len() {
            replace_from(s, p, to, i + 1, i + 1, acc.push(s[i]))
        } else {
            acc
        }),
{
    lemma_find_from(s, p, i);
    lemma_find_from(s, p, i + 1);
    if occurs_at(s, p, i) {
        assert(find_from(s, p, i) == Some(i));
        assert(acc + s.subrange(i, i) + to =~= acc + to);
    } else if i < s.len() {
        assert(find_from(s, p, i) == find_from(s, p, i + 1));
        match find_from(s, p, i + 1) {
            None => {
                assert(acc + s.subrange(i, s.len() as int) =~= acc.push(s[i]) + s.subrange(
                    i + 1,
                    s.len() as int,
                ));
            },
            Some(k) => {
                assert(acc + s.subrange(i, k) + to =~= acc.push(s[i]) + s.subrange(i + 1, k) + to);
            },
        }
    } else {
        assert(find_from(s, p, i) is None);
        assert(acc + s.subrange(i, s.len() as int) =~= acc);
    }
}

/// Whether `p` stands at `i` is a matter of one or two characters.
proof fn lemma_occurs(s: Seq<char>, p: Seq<char>, i: int)
    requires
        0 <= i,
        1 <= p.len() <= 2,
    ensures
        occurs_at(s, p, i) <==> i + p.len() <= s.len() && s[i] == p[0] && (p.len() == 2 ==> s[i + 1]
            == p[1]),
{
    if i + p.len() <= s.len() {
        let x = s.subrange(i, i + p.len());
        if s[i] == p[0] && (p.len() == 2 ==> s[i + 1] == p[1]) {
            assert(x =~= p);
        } else if x == p {
            assert(x[0] == s[i]);
            if p.len() == 2 {
                assert(x[1] == s[i + 1]);
            }
        }
    }
}

proof fn lemma_double(s: Seq<char>, i: int, acc: Seq<char>)
    requires
        0 <= i <= s.len(),
    ensures
        replace_from(s, "\\"@, "\\\\"@, i, i, acc) == acc + doubled(s, i),
    decreases s.len() - i,
{
    reveal_strlit("\\");
    reveal_strlit("\\\\");
    let to = "\\\\"@;
    lemma_replace_step(s, "\\"@, to, i, acc);
    lemma_occurs(s, "\\"@, i);
    if i < s.len() {
        if s[i] == '\\' {
            lemma_double(s, i + 1, acc + to);
            assert(acc + to + doubled(s, i + 1) =~= acc + doubled(s, i));
        } else {
            lemma_double(s, i + 1, acc.push(s[i]));
            assert(acc.push(s[i]) + doubled(s, i + 1) =~= acc + doubled(s, i));
        }
    } else {
        assert(acc + doubled(s, i) =~= acc);
    }
}

/// Bars get their backslashes behind the doubling.
proof fn lemma_guard(s: Seq<char>, i: int, d: Seq<char>, at: int, acc: Seq<char>)
    requires
        0 <= i <= s.len(),
        0 <= at <= d.len(),
        d.skip(at) == doubled(s, i),
    ensures
        replace_from(d, "|"@, "\\|"@, at, at, acc) == acc + guarded(s, i),
    decreases s.len() - i,
{
    reveal_strlit("|");
    reveal_strlit("\\|");
    let to = "\\|"@;
    let rest = d.skip(at);
    assert(rest.len() == d.len() - at);
    lemma_replace_step(d, "|"@, to, at, acc);
    lemma_occurs(d, "|"@, at);
    if i < s.len() {
        let next = doubled(s, i + 1);
        assert(d[at] == rest[0]);
        if s[i] == '\\' {
            assert(d[at + 1] == rest[1]);
            lemma_replace_step(d, "|"@, to, at + 1, acc.push('\\'));
            lemma_occurs(d, "|"@, at + 1);
            assert(d.skip(at + 2) =~= next) by {
                assert(rest.skip(2) =~= next);
            }
            let done = acc.push('\\').push('\\');
            lemma_guard(s, i + 1, d, at + 2, done);
            assert(done + guarded(s, i + 1) =~= acc + guarded(s, i));
        } else {
            assert(d.skip(at + 1) =~= next) by {
                assert(rest.skip(1) =~= next);
            }
            let done = if s[i] == '|' {
                acc + to
            } else {
                acc.push(s[i])
            };
            lemma_guard(s, i + 1, d, at + 1, done);
            assert(done + guarded(s, i + 1) =~= acc + guarded(s, i));
        }
    } else {
        assert(acc + guarded(s, i) =~= acc);
    }
}

/// A guarded text does not begin with a bar.
proof fn lemma_no_bare_bar(s: Seq<char>, i: int)
    ensures
        guarded(s, i).len() > 0 ==> guarded(s, i)[0] != '|',
{
}

proof fn lemma_drop_guards(s: Seq<char>, i: int, g: Seq<char>, at: int, acc: Seq<char>)
    requires
        0 <= i <= s.len(),
        0 <= at <= g.len(),
        g.skip(at) == guarded(s, i),
    ensures
        replace_from(g, "\\|"@, "|"@, at, at, acc) == acc + doubled(s, i),
    decreases s.len() - i,
{
    reveal_strlit("|");
    reveal_strlit("\\|");
    let rest = g.skip(at);
    assert(rest.len() == g.len() - at);
    lemma_replace_step(g, "\\|"@, "|"@, at, acc);
    lemma_occurs(g, "\\|"@, at);
    if i < s.len() {
        let next = guarded(s, i + 1);
        assert(g[at] == rest[0]);
        if s[i] == '\\' {
            assert(g[at + 1] == rest[1]);
            assert(rest.skip(2) =~= next);
            assert(g.skip(at + 2) =~= next);
            lemma_no_bare_bar(s, i + 1);
            lemma_replace_step(g, "\\|"@, "|"@, at + 1, acc.push('\\'));
            lemma_occurs(g, "\\|"@, at + 1);
            if at + 2 < g.len() {
                assert(g[at + 2] == next[0]);
            }
            let done = acc.push('\\').push('\\');
            lemma_drop_guards(s, i + 1, g, at + 2, done);
            assert(done + doubled(s, i + 1) =~= acc + doubled(s, i));
        } else if s[i] == '|' {
            assert(g[at + 1] == rest[1]);
            assert(rest.skip(2) =~= next);
            assert(g.skip(at + 2) =~= next);
            lemma_drop_guards(s, i + 1, g, at + 2, acc + "|"@);
            assert(acc + "|"@ + doubled(s, i + 1) =~= acc + doubled(s, i));
        } else {
            assert(rest.skip(1) =~= next);
            assert(g.skip(at + 1) =~= next);
            lemma_drop_guards(s, i + 1, g, at + 1, acc.push(s[i]));
            assert(acc.push(s[i]) + doubled(s, i + 1) =~= acc + doubled(s, i));
        }
    } else {
        assert(acc + doubled(s, i) =~= acc);
    }
}

proof fn lemma_halve(s: Seq<char>, i: int, d: Seq<char>, at: int, acc: Seq<char>)
    requires
        0 <= i <= s.len(),
        0 <= at <= d.len(),
        d.skip(at) == doubled(s, i),
    ensures
        replace_from(d, "\\\\"@, "\\"@, at, at, acc) == acc + s.skip(i),
    decreases s.len() - i,
{
    reveal_strlit("\\");
    reveal_strlit("\\\\");
    let rest = d.skip(at);
    assert(rest.len() == d.len() - at);
    lemma_replace_step(d, "\\\\"@, "\\"@, at, acc);
    lemma_occurs(d, "\\\\"@, at);
    if i < s.len() {
        let next = doubled(s, i + 1);
        assert(d[at] == rest[0]);
        if s[i] == '\\' {
            assert(d[at + 1] == rest[1]);
            assert(rest.skip(2) =~= next);
            assert(d.skip(at + 2) =~= next);
            lemma_halve(s, i + 1, d, at + 2, acc + "\\"@);
            assert(acc + "\\"@ + s.skip(i + 1) =~= acc + s.skip(i));
        } else {
            assert(rest.skip(1) =~= next);
            assert(d.skip(at + 1) =~= next);
            lemma_halve(s, i + 1, d, at + 1, acc.push(s[i]));
            assert(acc.push(s[i]) + s.skip(i + 1) =~= acc + s.skip(i));
        }
    } else {
        assert(acc + s.skip(i) =~= acc);
    }
}

/// A header field is read back from its escaped form; a text without
/// backslashes is its own.
pub proof fn unescaping_undoes_escaping(s: Seq<char>)
    ensures
        unescaped(escaped(s)) == s,
        !s.contains('\\') ==> unescaped(s) == s,
{
    reveal(escaped);
    let none = Seq::<char>::empty();
    let d = doubled(s, 0);
    let g = guarded(s, 0);
    lemma_double(s, 0, none);
    assert(none + d =~= d);
    assert(d.skip(0) =~= d);
    lemma_guard(s, 0, d, 0, none);
    assert(none + g =~= g);
    assert(g.skip(0) =~= g);
    lemma_drop_guards(s, 0, g, 0, none);
    lemma_halve(s, 0, d, 0, none);
    assert(none + s.skip(0) =~= s);
    if !s.contains('\\') {
        lemma_plain_stays(s, "\\|"@, "|"@);
        lemma_plain_stays(s, "\\\\"@, "\\"@);
    }
}

proof fn lemma_plain_stays(s: Seq<char>, p: Seq<char>, to: Seq<char>)
    requires
        !s.contains('\\'),
        p == "\\|"@ || p == "\\\\"@,
    ensures
        replace_text(s, p, to) == s,
{
    reveal_strlit("\\|");
    reveal_strlit("\\\\");
    lemma_find_from(s, p, 0);
    if let Some(k) = find_from(s, p, 0) {
        lemma_occurs(s, p, k);
        assert(s.contains(s[k]));
    }
    assert(Seq::<char>::empty() + s.subrange(0, s.len() as int) =~= s);
}

#[verifier::spinoff_prover]
proof fn lemma_found(s: Seq<char>, from: int, n: int)
    requires
        0 <= from <= n < s.len(),
        s[n] == '=',
        forall|j: int| from <= j < n ==> s[j] != '=',
    ensures
        find_from(s, "="@, from) == Some(n),
    decreases n - from,
{
    reveal_strlit("=");
    lemma_occurs(s, "="@, from);
    if from < n {
        lemma_found(s, from + 1, n);
    }
}

#[verifier::spinoff_prover]
proof fn lemma_not_found(s: Seq<char>, from: int)
    requires
        0 <= from <= s.len(),
        forall|j: int| from <= j < s.len() ==> s[j] != '=',
    ensures
        find_from(s, "="@, from) is None,
    decreases s.len() - from,
{
    reveal_strlit("=");
    lemma_occurs(s, "="@, from);
    if from < s.len() {
        lemma_not_found(s, from + 1);
    }
}

#[verifier::spinoff_prover]
proof fn lemma_two_pieces(key: Seq<char>, value: Seq<char>)
    requires
        !key.contains('='),
        !value.contains('='),
    ensures
        split_text(key + "="@ + value, "="@) == Seq::empty().push(key).push(value),
{
    reveal_strlit("=");
    let s = key + "="@ + value;
    let n = key.len() as int;
    assert forall|j: int| 0 <= j < n implies s[j] != '=' by {
        assert(key.contains(key[j]));
        assert(s[j] == key[j]);
    }
    assert forall|j: int| n + 1 <= j < s.len() implies s[j] != '=' by {
        assert(value.contains(value[j - n - 1]));
        assert(s[j] == value[j - n - 1]);
    }
    assert(s[n] == '=');
    lemma_found(s, 0, n);
    lemma_not_found(s, n + 1);
    assert(s.subrange(0, n) =~= key);
    assert(s.subrange(n + 1, s.len() as int) =~= value);
    let one = Seq::<Seq<char>>::empty().push(key);
    assert(split_from(s, "="@, n + 1, n + 1, one) == one.push(value));
    assert(split_from(s, "="@, 0, 0, Seq::empty()) == split_from(s, "="@, n + 1, n + 1, one));
}

/// A value without equals signs belongs wholly to its key, whatever spaces it
/// holds.
pub proof fn last_value_is_whole(key: Seq<char>, value: Seq<char>)
    requires
        !key.contains('='),
        !value.contains('='),
        trim_text(key).len() > 0,
    ensures
        extension_pairs(key + "="@ + value) == seq![(trim_text(key), trim_text(value))],
{
    lemma_two_pieces(key, value);
    let tokens = Seq::<Seq<char>>::empty().push(key).push(value);
    assert(tokens.len() == 2 && tokens[0] == key && tokens[1] == value);
    let none = Seq::<(Seq<char>, Seq<char>)>::empty();
    let k = trim_text(key);
    let done = none.push((k, trim_text(value)));
    assert(next_key(tokens, 1) is None);
    assert(with_part(Seq::empty(), value) == value);
    assert(pairs_from(tokens, 2, k, value, none) == done);
    assert(pairs_from(tokens, 1, k, Seq::empty(), none) == done);
    assert(done =~= seq![(k, trim_text(value))]);
}

proof fn lemma_escaped(s: Seq<char>)
    ensures
        escaped(s) == guarded(s, 0),
{
    reveal(escaped);
    let none = Seq::<char>::empty();
    let d = doubled(s, 0);
    lemma_double(s, 0, none);
    assert(none + d =~= d);
    assert(d.skip(0) =~= d);
    lemma_guard(s, 0, d, 0, none);
    assert(none + guarded(s, 0) =~= guarded(s, 0));
}

/// What the header of a message says, in its order.
pub struct CefHeader {
    pub version: Seq<char>,
    pub vendor: Seq<char>,
    pub product: Seq<char>,
    pub device_version: Seq<char>,
    pub signature: Seq<char>,
    pub name: Seq<char>,
    pub severity: Seq<char>,
}

/// A message: the escaped fields of the header, each with a bar behind it, and
/// the extension.
pub open spec fn cef_message(h: CefHeader, extension: Seq<char>) -> Seq<char> {
    "CEF:"@ + escaped(h.version) + "|"@ + escaped(h.vendor) + "|"@ + escaped(h.product) + "|"@
        + escaped(h.device_version) + "|"@ + escaped(h.signature) + "|"@ + escaped(h.name) + "|"@
        + escaped(h.severity) + "|"@ + extension
}

/// Whether an event says what a header says.
pub open spec fn tells_header(e: EventV, h: CefHeader) -> bool {
    &&& field_of(e, "cef_version"@) == Some(JsonV::Str(h.version))
    &&& field_of(e, "device_vendor"@) == Some(JsonV::Str(h.vendor))
    &&& field_of(e, "device_product"@) == Some(JsonV::Str(h.product))
    &&& field_of(e, "device_version"@) == Some(JsonV::Str(h.device_version))
    &&& field_of(e, "signature_id"@) == Some(JsonV::Str(h.signature))
    &&& field_of(e, "name"@) == Some(JsonV::Str(h.name))
    &&& field_of(e, "severity"@) == Some(JsonV::Str(h.severity))
}

proof fn lemma_header_names()
    ensures
        is_plain_name("cef_version"@),
        "cef_version"@.len() == 11,
        is_plain_name("device_vendor"@),
        "device_vendor"@.len() == 13,
        is_plain_name("device_product"@),
        "device_product"@.len() == 14,
        is_plain_name("device_version"@),
        "device_version"@.len() == 14,
        is_plain_name("signature_id"@),
        "signature_id"@.len() == 12,
        is_plain_name("name"@),
        "name"@.len() == 4,
        is_plain_name("severity"@),
        "severity"@.len() == 8,
        is_plain_name("message"@),
        "message"@.len() == 7,
        is_plain_name("syslog_header"@),
        "syslog_header"@.len() == 13,
        "device_version"@ != "device_product"@,
        "syslog_header"@ != "device_vendor"@,
{
    reveal_strlit("cef_version");
    reveal_strlit("device_vendor");
    reveal_strlit("device_product");
    reveal_strlit("device_version");
    reveal_strlit("signature_id");
    reveal_strlit("name");
    reveal_strlit("severity");
    reveal_strlit("message");
    reveal_strlit("syslog_header");
    assert("device_version"@[7] != "device_product"@[7]);
    assert("syslog_header"@[0] != "device_vendor"@[0]);
}

proof fn lemma_header_field(c: Seq<char>, at: int, s: Seq<char>, i: int, part: Seq<char>, done: Seq<Seq<char>>)
    requires
        0 <= i <= s.len(),
        0 <= at,
        at + guarded(s, i).len() < c.len(),
        c.subrange(at, at + guarded(s, i).len()) == guarded(s, i),
        c[at + guarded(s, i).len()] == '|',
        done.len() < 7,
    ensures
        header_from(c, at, part, done) == header_from(
            c,
            at + guarded(s, i).len() + 1,
            Seq::empty(),
            done.push(part + guarded(s, i)),
        ),
    decreases s.len() - i,
{
    let g = guarded(s, i);
    let x = c.subrange(at, at + g.len());
    if i < s.len() {
        let next = guarded(s, i + 1);
        assert(c[at] == x[0]);
        if s[i] == '\\' || s[i] == '|' {
            assert(c[at + 1] == x[1]);
            assert(c.subrange(at + 2, at + 2 + next.len()) =~= next) by {
                assert(g.skip(2) =~= next);
                assert(x.skip(2) =~= c.subrange(at + 2, at + 2 + next.len()));
            }
            let p = part.push(c[at]).push(c[at + 1]);
            lemma_header_field(c, at + 2, s, i + 1, p, done);
            assert(p + next =~= part + g);
        } else {
            assert(c.subrange(at + 1, at + 1 + next.len()) =~= next) by {
                assert(g.skip(1) =~= next);
                assert(x.skip(1) =~= c.subrange(at + 1, at + 1 + next.len()));
            }
            let p = part.push(c[at]);
            lemma_header_field(c, at + 1, s, i + 1, p, done);
            assert(p + next =~= part + g);
        }
    } else {
        assert(part + g =~= part);
    }
}

/// Behind the seventh field all is extension.
proof fn lemma_extension(c: Seq<char>, at: int, part: Seq<char>, done: Seq<Seq<char>>)
    requires
        0 <= at <= c.len(),
        done.len() == 7,
    ensures
        header_from(c, at, part, done) == (done, part + c.skip(at)),
    decreases c.len() - at,
{
    if at < c.len() {
        if c[at] == '\\' && at + 1 < c.len() {
            lemma_extension(c, at + 2, part.push(c[at]).push(c[at + 1]), done);
            assert(part.push(c[at]).push(c[at + 1]) + c.skip(at + 2) =~= part + c.skip(at));
        } else {
            lemma_extension(c, at + 1, part.push(c[at]), done);
            assert(part.push(c[at]) + c.skip(at + 1) =~= part + c.skip(at));
        }
    } else {
        assert(part + c.skip(at) =~= part);
    }
}

/// A field and the bar behind it.
proof fn lemma_next_field(c: Seq<char>, at: int, s: Seq<char>, done: Seq<Seq<char>>)
    requires
        0 <= at,
        at + escaped(s).len() < c.len(),
        c.subrange(at, at + escaped(s).len()) == escaped(s),
        c[at + escaped(s).len()] == '|',
        done.len() < 7,
    ensures
        header_from(c, at, Seq::empty(), done) == header_from(
            c,
            at + escaped(s).len() + 1,
            Seq::empty(),
            done.push(escaped(s)),
        ),
{
    lemma_escaped(s);
    lemma_header_field(c, at, s, 0, Seq::empty(), done);
    assert(Seq::<char>::empty() + escaped(s) =~= escaped(s));
}

/// [`header_from`] at the start of a field.
#[verifier::opaque]
spec fn fields_from(c: Seq<char>, at: int, done: Seq<Seq<char>>) -> (Seq<Seq<char>>, Seq<char>) {
    header_from(c, at, Seq::empty(), done)
}

/// A field, the bar behind it, and what follows.
proof fn lemma_field_and_rest(
    c: Seq<char>,
    at: int,
    s: Seq<char>,
    rest: Seq<char>,
    done: Seq<Seq<char>>,
)
    requires
        0 <= at <= c.len(),
        c.skip(at) == escaped(s) + "|"@ + rest,
        done.len() < 7,
    ensures
        fields_from(c, at, done) == fields_from(
            c,
            at + escaped(s).len() + 1,
            done.push(escaped(s)),
        ),
        at + escaped(s).len() + 1 <= c.len(),
        c.skip(at + escaped(s).len() + 1) == rest,
{
    reveal(fields_from);
    reveal_strlit("|");
    let x = escaped(s);
    let y = c.skip(at);
    assert(y.len() == x.len() + 1 + rest.len());
    assert(c.subrange(at, at + x.len()) =~= x) by {
        assert(y.subrange(0, x.len() as int) =~= x);
        assert(y.subrange(0, x.len() as int) =~= c.subrange(at, at + x.len()));
    }
    assert(c[at + x.len()] == y[x.len() as int]);
    assert(c.skip(at + x.len() + 1) =~= rest) by {
        assert(y.skip((x.len() + 1) as int) =~= rest);
    }
    lemma_next_field(c, at, s, done);
}

/// What follows the fields of a header, from the last one to the first.
spec fn message_tail(h: CefHeader, extension: Seq<char>, k: int) -> Seq<char> {
    let t6 = extension;
    let t5 = escaped(h.severity) + "|"@ + t6;
    let t4 = escaped(h.name) + "|"@ + t5;
    let t3 = escaped(h.signature) + "|"@ + t4;
    let t2 = escaped(h.device_version) + "|"@ + t3;
    let t1 = escaped(h.product) + "|"@ + t2;
    let t0 = escaped(h.vendor) + "|"@ + t1;
    if k == 0 {
        t0
    } else if k == 1 {
        t1
    } else if k == 2 {
        t2
    } else if k == 3 {
        t3
    } else if k == 4 {
        t4
    } else if k == 5 {
        t5
    } else {
        t6
    }
}

#[verifier::spinoff_prover]
proof fn lemma_message_tail(h: CefHeader, extension: Seq<char>)
    ensures
        cef_message(h, extension) == "CEF:"@ + (escaped(h.version) + "|"@ + message_tail(
            h,
            extension,
            0,
        )),
{
    assert(cef_message(h, extension) =~= "CEF:"@ + (escaped(h.version) + "|"@ + message_tail(
        h,
        extension,
        0,
    )));
}

proof fn lemma_split_message(h: CefHeader, extension: Seq<char>)
    ensures
        ({
            let text = cef_message(h, extension);
            let c = text.subrange(4, text.len() as int);
            let none = Seq::<Seq<char>>::empty();
            let fields = none.push(escaped(h.version)).push(escaped(h.vendor)).push(escaped(h.product)).push(escaped(h.device_version)).push(escaped(h.signature)).push(escaped(h.name)).push(escaped(h.severity));
            fields_from(c, 0, none) == (fields, extension)
        }),
{
    reveal_strlit("CEF:");
    lemma_message_tail(h, extension);
    let text = cef_message(h, extension);
    let c = text.subrange(4, text.len() as int);
    let d0 = Seq::<Seq<char>>::empty();
    let a0: int = 0;
    assert(c.skip(0) =~= escaped(h.version) + "|"@ + message_tail(h, extension, 0));
    lemma_field_and_rest(c, a0, h.version, message_tail(h, extension, 0), d0);
    let a1 = a0 + escaped(h.version).len() + 1;
    let d1 = d0.push(escaped(h.version));
    lemma_field_and_rest(c, a1, h.vendor, message_tail(h, extension, 1), d1);
    let a2 = a1 + escaped(h.vendor).len() + 1;
    let d2 = d1.push(escaped(h.vendor));
    lemma_field_and_rest(c, a2, h.product, message_tail(h, extension, 2), d2);
    let a3 = a2 + escaped(h.product).len() + 1;
    let d3 = d2.push(escaped(h.product));
    lemma_field_and_rest(c, a3, h.device_version, message_tail(h, extension, 3), d3);
    let a4 = a3 + escaped(h.device_version).len() + 1;
    let d4 = d3.push(escaped(h.device_version));
    lemma_field_and_rest(c, a4, h.signature, message_tail(h, extension, 4), d4);
    let a5 = a4 + escaped(h.signature).len() + 1;
    let d5 = d4.push(escaped(h.signature));
    lemma_field_and_rest(c, a5, h.name, message_tail(h, extension, 5), d5);
    let a6 = a5 + escaped(h.name).len() + 1;
    let d6 = d5.push(escaped(h.name));
    lemma_field_and_rest(c, a6, h.severity, message_tail(h, extension, 6), d6);
    let a7 = a6 + escaped(h.severity).len() + 1;
    let d7 = d6.push(escaped(h.severity));
    lemma_last_field(c, a7, d7, extension);
}

proof fn lemma_last_field(c: Seq<char>, at: int, done: Seq<Seq<char>>, extension: Seq<char>)
    requires
        0 <= at <= c.len(),
        done.len() == 7,
        c.skip(at) == extension,
    ensures
        fields_from(c, at, done) == (done, extension),
{
    reveal(fields_from);
    lemma_extension(c, at, Seq::empty(), done);
    assert(Seq::<char>::empty() + extension =~= extension);
}

proof fn lemma_header_event(h: CefHeader, fields: Seq<Seq<char>>, now: Moment)
    requires
        fields == Seq::<Seq<char>>::empty().push(escaped(h.version)).push(escaped(h.vendor)).push(escaped(h.product)).push(escaped(h.device_version)).push(escaped(h.signature)).push(escaped(h.name)).push(escaped(h.severity)),
    ensures
        tells_header(header_event(fields, now), h),
{
    lemma_fields_stay();
    lemma_header_names();
    unescaping_undoes_escaping(h.version);
    unescaping_undoes_escaping(h.vendor);
    unescaping_undoes_escaping(h.product);
    unescaping_undoes_escaping(h.device_version);
    unescaping_undoes_escaping(h.signature);
    unescaping_undoes_escaping(h.name);
    unescaping_undoes_escaping(h.severity);
}

/// A message without white space at its end that is written out from its header
/// and an extension: each field of the header comes out under its own name.
pub proof fn messages_tell_their_header(c: CefCodec, t: AnswersV, h: CefHeader, now: Moment)
    ensures
        c.decoded(encode_utf8(cef_message(h, Seq::empty()) + "\n"@), now, t) matches Ok(events)
            && events.len() == 1 && tells_header(events[0], h) && field_of(events[0], "message"@)
            == Some(JsonV::Str(cef_message(h, Seq::empty()))),
{
    reveal_strlit("CEF:");
    reveal_strlit("|");
    reveal_strlit("\n");
    let text = cef_message(h, Seq::empty());
    let line = text + "\n"@;
    text_survives(line);
    assert(text.last() == '|' && text[0] == 'C');
    lemma_trimmed(text);
    assert(text.subrange(0, 4) =~= "CEF:"@);
    assert(find_from(text, "CEF:"@, 0) == Some(0int));
    lemma_split_message(h, Seq::empty());
    reveal(fields_from);
    lemma_fields_stay();
    lemma_header_names();
    let fields = Seq::<Seq<char>>::empty().push(escaped(h.version)).push(escaped(h.vendor)).push(escaped(h.product)).push(escaped(h.device_version)).push(escaped(h.signature)).push(escaped(h.name)).push(escaped(h.severity));
    lemma_header_event(h, fields, now);
}

proof fn lemma_trimmed(text: Seq<char>)
    requires
        text.len() > 0,
        !is_white(text[0]),
        !is_white(text.last()),
    ensures
        trim_text(text + "\n"@) == text,
        trim_text(text) == text,
{
    reveal_strlit("\n");
    let line = text + "\n"@;
    assert(line[0] == text[0] && line[text.len() - 1] == text.last());
    assert(white_end(line, 0) == 0);
    reveal_with_fuel(white_start, 3);
    assert(white_start(line, 0, line.len() as int) == text.len());
    assert(line.subrange(0, text.len() as int) =~= text);
    assert(white_start(text, 0, text.len() as int) == text.len());
    assert(text.subrange(0, text.len() as int) =~= text);
}

/// A text that needs no escapes.
pub open spec fn is_bare(s: Seq<char>) -> bool {
    !s.contains('\\') && !s.contains('|')
}

proof fn lemma_bare(s: Seq<char>, i: int)
    requires
        is_bare(s),
        0 <= i <= s.len(),
    ensures
        guarded(s, i) == s.skip(i),
    decreases s.len() - i,
{
    if i < s.len() {
        assert(s.contains(s[i]));
        lemma_bare(s, i + 1);
        assert(seq![s[i]] + s.skip(i + 1) =~= s.skip(i));
    } else {
        assert(s.skip(i) =~= Seq::empty());
    }
}

proof fn lemma_no_extension(t: AnswersV, p: Seq<(Seq<char>, JsonV)>, i: int)
    requires
        forall|k: int| 0 <= k < p.len() ==> reserved((#[trigger] p[k]).0),
    ensures
        extension_from(t, p, i, false, Seq::empty()) == Ok::<Seq<char>, QueryV>(Seq::empty()),
    decreases p.len() - i,
{
    if 0 <= i < p.len() {
        lemma_no_extension(t, p, i + 1);
    }
}

/// An event that has the seven fields of a header, texts that need no escapes,
/// and nothing for an extension: encoded and decoded again it has the same
/// fields.
pub proof fn headers_survive_cef(c: CefCodec, t: AnswersV, e: EventV, h: CefHeader, now: Moment)
    requires
        tells_header(e, h),
        forall|k: int| 0 <= k < e.fields.len() ==> reserved((#[trigger] e.fields[k]).0),
        is_bare(h.version),
        is_bare(h.vendor),
        is_bare(h.product),
        is_bare(h.device_version),
        is_bare(h.signature),
        is_bare(h.name),
        is_bare(h.severity),
    ensures
        c.encoded(e, t) matches Ok(b) && (c.decoded(b, now, t) matches Ok(events) && events.len()
            == 1 && tells_header(events[0], h)),
{
    lemma_no_extension(t, e.fields, 0);
    lemma_escaped(h.version);
    lemma_bare(h.version, 0);
    assert(h.version.skip(0) =~= h.version);
    lemma_escaped(h.vendor);
    lemma_bare(h.vendor, 0);
    assert(h.vendor.skip(0) =~= h.vendor);
    lemma_escaped(h.product);
    lemma_bare(h.product, 0);
    assert(h.product.skip(0) =~= h.product);
    lemma_escaped(h.device_version);
    lemma_bare(h.device_version, 0);
    assert(h.device_version.skip(0) =~= h.device_version);
    lemma_escaped(h.signature);
    lemma_bare(h.signature, 0);
    assert(h.signature.skip(0) =~= h.signature);
    lemma_escaped(h.name);
    lemma_bare(h.name, 0);
    assert(h.name.skip(0) =~= h.name);
    lemma_escaped(h.severity);
    lemma_bare(h.severity, 0);
    assert(h.severity.skip(0) =~= h.severity);
    messages_tell_their_header(c, t, h, now);
    let none = Seq::<char>::empty();
    let text = cef_message(h, none);
    assert("CEF:"@ + h.version + "|"@ + h.vendor + "|"@ + h.product + "|"@ + h.device_version + "|"@
        + h.signature + "|"@ + h.name + "|"@ + h.severity + "|"@ + none + "\n"@ == text + "\n"@);
}

/// A value under a key of its own in the extension comes out under the full
/// name of that key.
pub proof fn extensions_are_read_back(
    c: CefCodec,
    t: AnswersV,
    h: CefHeader,
    key: Seq<char>,
    value: Seq<char>,
    now: Moment,
)
    requires
        key.len() > 0,
        !key.contains('='),
        trim_text(key) == key,
        !value.contains('='),
        value.len() > 0,
        !is_white(value[0]),
        !is_white(value.last()),
        full_name(key) != "message"@,
        is_plain_name(full_name(key)),
    ensures
        c.decoded(encode_utf8(cef_message(h, key + "="@ + value)), now, t) matches Ok(events)
            && events.len() == 1 && field_of(events[0], full_name(key)) == Some(
            JsonV::Str(value),
        ),
{
    reveal_strlit("CEF:");
    reveal_strlit("|");
    reveal_strlit("=");
    let ext = key + "="@ + value;
    let text = cef_message(h, ext);
    text_survives(text);
    assert(ext.last() == value.last());
    assert(text.last() == ext.last() && text[0] == 'C');
    lemma_trimmed(text);
    lemma_trimmed(value);
    assert(text.subrange(0, 4) =~= "CEF:"@);
    assert(find_from(text, "CEF:"@, 0) == Some(0int));
    lemma_split_message(h, ext);
    reveal(fields_from);
    last_value_is_whole(key, value);
    lemma_fields_stay();
    let pairs = extension_pairs(ext);
    assert(pairs.len() == 1 && pairs[0] == (key, value));
    reveal_with_fuel(with_pairs, 3);
}

} // verus!
